//! Arbitrary-precision decimals, computed by the `bigdecimal` crate.
//!
//! A decimal is kept here as plain data: the bytes of its unscaled integer
//! and its scale. Each operation hands the two operands to `bigdecimal`,
//! lets it compute, and takes the result apart again. What the result is,
//! the verifier is not told: it is given a name, and the contracts built on
//! the operations speak of that name. What is proved is everything around
//! the arithmetic.

use vstd::prelude::*;
use bigdecimal::num_bigint::BigInt;
use bigdecimal::BigDecimal;

verus! {

/// Longest unscaled integer, in bytes, that an operation takes.
pub const MAX_BYTES: usize = 65536;

/// Largest scale, in either direction, that an operation takes.
pub const MAX_SCALE: i64 = 65536;

/// Largest number of significant digits that can be asked for.
pub const MAX_PRECISION: u64 = 65536;

/// The number `unscaled / 10^scale`.
#[derive(Clone, Debug, PartialEq, Eq)]
pub struct Decimal {
    /// The unscaled integer in two's complement, most significant byte
    /// first. No bytes at all stand for zero.
    pub unscaled: Vec<u8>,
    /// How many of the unscaled integer's digits follow the decimal point.
    pub scale: i64,
}

/// A decimal as the contracts see it.
pub struct DecimalValue {
    pub unscaled: Seq<u8>,
    pub scale: int,
}

impl View for Decimal {
    type V = DecimalValue;

    open spec fn view(&self) -> DecimalValue {
        DecimalValue { unscaled: self.unscaled@, scale: self.scale as int }
    }
}

impl DecimalValue {
    /// Small enough for the operations to take.
    pub open spec fn in_range(self) -> bool {
        self.unscaled.len() <= MAX_BYTES && -MAX_SCALE <= self.scale <= MAX_SCALE
    }
}

/// What `bigdecimal` gives for `a * b`.
pub uninterp spec fn decimal_product(a: DecimalValue, b: DecimalValue) -> DecimalValue;

/// What `bigdecimal` gives for `a + b`.
pub uninterp spec fn decimal_sum(a: DecimalValue, b: DecimalValue) -> DecimalValue;

/// What `bigdecimal` gives for `a - b`.
pub uninterp spec fn decimal_difference(a: DecimalValue, b: DecimalValue) -> DecimalValue;

/// What `bigdecimal` gives for `a` brought to `precision` significant digits.
pub uninterp spec fn decimal_rounded(a: DecimalValue, precision: u64) -> DecimalValue;

/// Whether `bigdecimal` orders `a` before `b`.
pub uninterp spec fn decimal_less(a: DecimalValue, b: DecimalValue) -> bool;

/// `&BigDecimal * &BigDecimal`. Says only that the result is a function of
/// the operands. The bounds keep the sum of the scales inside `i64`.
#[verifier::external_body]
fn product(a: &Decimal, b: &Decimal) -> (r: Decimal)
    requires
        a@.in_range(),
        b@.in_range(),
    ensures
        r@ == decimal_product(a@, b@),
{
    let x = BigDecimal::new(BigInt::from_signed_bytes_be(&a.unscaled), a.scale);
    let y = BigDecimal::new(BigInt::from_signed_bytes_be(&b.unscaled), b.scale);
    let (unscaled, scale) = (&x * &y).into_bigint_and_exponent();
    Decimal { unscaled: unscaled.to_signed_bytes_be(), scale }
}

/// `&BigDecimal + &BigDecimal`. Says only that the result is a function of
/// the operands. The bounds keep the power of ten that aligns the scales
/// small enough to compute.
#[verifier::external_body]
fn sum(a: &Decimal, b: &Decimal) -> (r: Decimal)
    requires
        a@.in_range(),
        b@.in_range(),
    ensures
        r@ == decimal_sum(a@, b@),
{
    let x = BigDecimal::new(BigInt::from_signed_bytes_be(&a.unscaled), a.scale);
    let y = BigDecimal::new(BigInt::from_signed_bytes_be(&b.unscaled), b.scale);
    let (unscaled, scale) = (&x + &y).into_bigint_and_exponent();
    Decimal { unscaled: unscaled.to_signed_bytes_be(), scale }
}

/// `&BigDecimal - &BigDecimal`. Says only that the result is a function of
/// the operands. The bounds keep the power of ten that aligns the scales
/// small enough to compute.
#[verifier::external_body]
fn difference(a: &Decimal, b: &Decimal) -> (r: Decimal)
    requires
        a@.in_range(),
        b@.in_range(),
    ensures
        r@ == decimal_difference(a@, b@),
{
    let x = BigDecimal::new(BigInt::from_signed_bytes_be(&a.unscaled), a.scale);
    let y = BigDecimal::new(BigInt::from_signed_bytes_be(&b.unscaled), b.scale);
    let (unscaled, scale) = (&x - &y).into_bigint_and_exponent();
    Decimal { unscaled: unscaled.to_signed_bytes_be(), scale }
}

/// `BigDecimal::with_prec`. Says only that the result is a function of the
/// operand and the precision. The bounds keep the power of ten by which the
/// digits are padded or cut small enough to compute, and the new scale
/// inside `i64`.
#[verifier::external_body]
fn rounded(a: &Decimal, precision: u64) -> (r: Decimal)
    requires
        a@.in_range(),
        precision <= MAX_PRECISION,
    ensures
        r@ == decimal_rounded(a@, precision),
{
    let x = BigDecimal::new(BigInt::from_signed_bytes_be(&a.unscaled), a.scale);
    let (unscaled, scale) = x.with_prec(precision).into_bigint_and_exponent();
    Decimal { unscaled: unscaled.to_signed_bytes_be(), scale }
}

/// `BigDecimal < BigDecimal`. Says only that the answer is a function of
/// the operands.
#[verifier::external_body]
fn less(a: &Decimal, b: &Decimal) -> (r: bool)
    requires
        a@.in_range(),
        b@.in_range(),
    ensures
        r == decimal_less(a@, b@),
{
    let x = BigDecimal::new(BigInt::from_signed_bytes_be(&a.unscaled), a.scale);
    let y = BigDecimal::new(BigInt::from_signed_bytes_be(&b.unscaled), b.scale);
    x < y
}

/// `a * b`, where both are in range.
pub open spec fn times(a: DecimalValue, b: DecimalValue) -> Option<DecimalValue> {
    if a.in_range() && b.in_range() {
        Some(decimal_product(a, b))
    } else {
        None
    }
}

/// `a + b`, where both are in range.
pub open spec fn plus(a: DecimalValue, b: DecimalValue) -> Option<DecimalValue> {
    if a.in_range() && b.in_range() {
        Some(decimal_sum(a, b))
    } else {
        None
    }
}

/// `a - b`, where both are in range.
pub open spec fn minus(a: DecimalValue, b: DecimalValue) -> Option<DecimalValue> {
    if a.in_range() && b.in_range() {
        Some(decimal_difference(a, b))
    } else {
        None
    }
}

/// `a` at `precision` significant digits, where both are in range.
pub open spec fn at_precision(a: DecimalValue, precision: u64) -> Option<DecimalValue> {
    if a.in_range() && precision <= MAX_PRECISION {
        Some(decimal_rounded(a, precision))
    } else {
        None
    }
}

/// Whether `a < b`, where both are in range.
pub open spec fn below(a: DecimalValue, b: DecimalValue) -> Option<bool> {
    if a.in_range() && b.in_range() {
        Some(decimal_less(a, b))
    } else {
        None
    }
}

/// What an operation that may refuse its operands returned.
pub open spec fn agrees(got: Option<Decimal>, want: Option<DecimalValue>) -> bool {
    match got {
        Some(d) => want == Some(d@),
        None => want is None,
    }
}

impl Decimal {
    /// Small enough for the operations to take.
    pub fn in_range(&self) -> (ok: bool)
        ensures
            ok == self@.in_range(),
    {
        self.unscaled.len() <= MAX_BYTES && -MAX_SCALE <= self.scale && self.scale <= MAX_SCALE
    }

    /// The whole number `n`.
    pub fn from_u32(n: u32) -> (d: Decimal)
        ensures
            d@ == whole(n),
            d@.in_range(),
    {
        let mut unscaled: Vec<u8> = Vec::new();
        unscaled.push(0);
        unscaled.push((n >> 24) as u8);
        unscaled.push(((n >> 16) & 0xff) as u8);
        unscaled.push(((n >> 8) & 0xff) as u8);
        unscaled.push((n & 0xff) as u8);
        let d = Decimal { unscaled, scale: 0 };
        proof {
            assert(d@.unscaled =~= whole(n).unscaled);
        }
        d
    }

    /// A copy.
    pub fn duplicate(&self) -> (d: Decimal)
        ensures
            d@ == self@,
    {
        let unscaled = self.unscaled.clone();
        proof {
            assert(unscaled@ =~= self.unscaled@);
        }
        Decimal { unscaled, scale: self.scale }
    }

    /// `self * other`, or `None` when an operand is out of range.
    pub fn checked_mul(&self, other: &Decimal) -> (r: Option<Decimal>)
        ensures
            agrees(r, times(self@, other@)),
    {
        if self.in_range() && other.in_range() {
            Some(product(self, other))
        } else {
            None
        }
    }

    /// `self + other`, or `None` when an operand is out of range.
    pub fn checked_add(&self, other: &Decimal) -> (r: Option<Decimal>)
        ensures
            agrees(r, plus(self@, other@)),
    {
        if self.in_range() && other.in_range() {
            Some(sum(self, other))
        } else {
            None
        }
    }

    /// `self - other`, or `None` when an operand is out of range.
    pub fn checked_sub(&self, other: &Decimal) -> (r: Option<Decimal>)
        ensures
            agrees(r, minus(self@, other@)),
    {
        if self.in_range() && other.in_range() {
            Some(difference(self, other))
        } else {
            None
        }
    }

    /// `self` at `precision` significant digits, or `None` when the operand
    /// or the precision is out of range.
    pub fn checked_with_prec(&self, precision: u64) -> (r: Option<Decimal>)
        ensures
            agrees(r, at_precision(self@, precision)),
    {
        if self.in_range() && precision <= MAX_PRECISION {
            Some(rounded(self, precision))
        } else {
            None
        }
    }

    /// Whether `self < other`, or `None` when an operand is out of range.
    pub fn checked_lt(&self, other: &Decimal) -> (r: Option<bool>)
        ensures
            r == below(self@, other@),
    {
        if self.in_range() && other.in_range() {
            Some(less(self, other))
        } else {
            None
        }
    }
}

/// The whole number `n`: a zero byte, so that the sign is plus, then the
/// four bytes of `n`, most significant first.
pub open spec fn whole(n: u32) -> DecimalValue {
    DecimalValue {
        unscaled: seq![
            0u8,
            (n >> 24) as u8,
            ((n >> 16) & 0xff) as u8,
            ((n >> 8) & 0xff) as u8,
            (n & 0xff) as u8,
        ],
        scale: 0,
    }
}

} // verus!
