//! Numbers of the four families: integers, decimals, and the two
//! floating-point formats as bit patterns.

use vstd::prelude::*;
use std::str::FromStr;
use rust_decimal::Decimal;
use crate::dataset::ArithmeticOperator;
use crate::term::DecimalValue;
use crate::term::DECIMAL_MANTISSA_LIMIT;

verus! {

/// How one value stands to another.
#[derive(Clone, Copy, PartialEq, Eq, Structural, Debug, Hash)]
pub enum Comparison {
    Less,
    Equal,
    Greater,
}

impl Comparison {
    /// The same relation seen from the other side.
    pub open spec fn spec_reversed(&self) -> Comparison {
        match *self {
            Comparison::Less => Comparison::Greater,
            Comparison::Equal => Comparison::Equal,
            Comparison::Greater => Comparison::Less,
        }
    }

    /// The same relation seen from the other side.
    #[verifier::when_used_as_spec(spec_reversed)]
    pub fn reversed(&self) -> (r: Comparison)
        ensures
            r == self.spec_reversed(),
    {
        match self {
            Comparison::Less => Comparison::Greater,
            Comparison::Equal => Comparison::Equal,
            Comparison::Greater => Comparison::Less,
        }
    }
}

/// The order of two integers.
pub open spec fn int_order(a: int, b: int) -> Comparison {
    if a < b {
        Comparison::Less
    } else if a == b {
        Comparison::Equal
    } else {
        Comparison::Greater
    }
}

/// The quotient of `a` by `b`, rounded toward zero; `b` is not zero.
pub open spec fn truncated_quotient(a: int, b: int) -> int {
    if a == 0 {
        0
    } else if a > 0 && b > 0 {
        a / b
    } else if a < 0 && b < 0 {
        (a * -1) / (b * -1)
    } else if a < 0 {
        ((a * -1) / b) * -1
    } else {
        (a / (b * -1)) * -1
    }
}

/// The exact result of an operation on two integers, where it is defined.
pub open spec fn integer_exact(operator: ArithmeticOperator, a: int, b: int) -> Option<int> {
    match operator {
        ArithmeticOperator::Add => Some(a + b),
        ArithmeticOperator::Sub => Some(a - b),
        ArithmeticOperator::Mul => Some(a * b),
        ArithmeticOperator::Div => if b == 0 {
            None
        } else {
            Some(truncated_quotient(a, b))
        },
    }
}

/// Integer arithmetic: the exact result if it is defined and fits 128 bits.
/// Division rounds toward zero; division by zero has no result.
pub open spec fn integer_arithmetic(operator: ArithmeticOperator, a: i128, b: i128) -> Option<
    i128,
> {
    match integer_exact(operator, a as int, b as int) {
        Some(v) => if i128::MIN <= v <= i128::MAX {
            Some(v as i128)
        } else {
            None
        },
        None => None,
    }
}

/// Applies an operation to two integers.
pub fn integer_operation(operator: ArithmeticOperator, a: i128, b: i128) -> (r: Option<i128>)
    ensures
        r == integer_arithmetic(operator, a, b),
{
    match operator {
        ArithmeticOperator::Add => a.checked_add(b),
        ArithmeticOperator::Sub => a.checked_sub(b),
        ArithmeticOperator::Mul => a.checked_mul(b),
        ArithmeticOperator::Div => a.checked_div(b),
    }
}

/// The negation of an integer, if it fits.
pub open spec fn integer_negation(a: i128) -> Option<i128> {
    if a == i128::MIN {
        None
    } else {
        Some((-a) as i128)
    }
}

/// Negates an integer.
pub fn integer_negated(a: i128) -> (r: Option<i128>)
    ensures
        r == integer_negation(a),
{
    if a == i128::MIN {
        None
    } else {
        Some(-a)
    }
}

/// Compares two integers.
pub fn integer_compare(a: i128, b: i128) -> (r: Comparison)
    ensures
        r == int_order(a as int, b as int),
{
    if a < b {
        Comparison::Less
    } else if a == b {
        Comparison::Equal
    } else {
        Comparison::Greater
    }
}

/// A binary32 bit pattern is a NaN: its exponent is all ones and its
/// fraction is not zero.
pub open spec fn single_is_nan(bits: u32) -> bool {
    bits % 0x8000_0000 > 0x7f80_0000
}

/// A binary32 bit pattern is zero, of either sign.
pub open spec fn single_is_zero(bits: u32) -> bool {
    bits % 0x8000_0000 == 0
}

/// The place of a binary32 bit pattern that is no NaN among the numbers: its
/// magnitude bits, negated where the sign bit is set.
pub open spec fn single_key(bits: u32) -> int {
    if bits >= 0x8000_0000 {
        -((bits - 0x8000_0000) as int)
    } else {
        bits as int
    }
}

/// The IEEE-754 order of two binary32 values; none if either is a NaN.
pub open spec fn single_order(a: u32, b: u32) -> Option<Comparison> {
    if single_is_nan(a) || single_is_nan(b) {
        None
    } else {
        Some(int_order(single_key(a), single_key(b)))
    }
}

/// A binary32 value with its sign bit flipped.
pub open spec fn single_negation(bits: u32) -> u32 {
    if bits >= 0x8000_0000 {
        (bits - 0x8000_0000) as u32
    } else {
        (bits + 0x8000_0000) as u32
    }
}

/// Tests a binary32 value for zero.
pub fn single_zero(bits: u32) -> (r: bool)
    ensures
        r == single_is_zero(bits),
{
    bits % 0x8000_0000 == 0
}

/// Compares two binary32 values.
pub fn single_compare(a: u32, b: u32) -> (r: Option<Comparison>)
    ensures
        r == single_order(a, b),
{
    if a % 0x8000_0000 > 0x7f80_0000 || b % 0x8000_0000 > 0x7f80_0000 {
        return None;
    }
    let a_negative = a >= 0x8000_0000;
    let b_negative = b >= 0x8000_0000;
    let a_magnitude: u32 = a % 0x8000_0000;
    let b_magnitude: u32 = b % 0x8000_0000;
    let r = if a_negative {
        if b_negative {
            integer_compare(b_magnitude as i128, a_magnitude as i128)
        } else if a_magnitude == 0 && b_magnitude == 0 {
            Comparison::Equal
        } else {
            Comparison::Less
        }
    } else {
        if !b_negative {
            integer_compare(a_magnitude as i128, b_magnitude as i128)
        } else if a_magnitude == 0 && b_magnitude == 0 {
            Comparison::Equal
        } else {
            Comparison::Greater
        }
    };
    Some(r)
}

/// Negates a binary32 value.
pub fn single_negated(bits: u32) -> (r: u32)
    ensures
        r == single_negation(bits),
{
    if bits >= 0x8000_0000 {
        bits - 0x8000_0000
    } else {
        bits + 0x8000_0000
    }
}

/// A binary64 bit pattern is a NaN.
pub open spec fn double_is_nan(bits: u64) -> bool {
    bits % 0x8000_0000_0000_0000 > 0x7ff0_0000_0000_0000
}

/// A binary64 bit pattern is zero, of either sign.
pub open spec fn double_is_zero(bits: u64) -> bool {
    bits % 0x8000_0000_0000_0000 == 0
}

/// The place of a binary64 bit pattern that is no NaN among the numbers.
pub open spec fn double_key(bits: u64) -> int {
    if bits >= 0x8000_0000_0000_0000 {
        -((bits - 0x8000_0000_0000_0000) as int)
    } else {
        bits as int
    }
}

/// The IEEE-754 order of two binary64 values; none if either is a NaN.
pub open spec fn double_order(a: u64, b: u64) -> Option<Comparison> {
    if double_is_nan(a) || double_is_nan(b) {
        None
    } else {
        Some(int_order(double_key(a), double_key(b)))
    }
}

/// A binary64 value with its sign bit flipped.
pub open spec fn double_negation(bits: u64) -> u64 {
    if bits >= 0x8000_0000_0000_0000 {
        (bits - 0x8000_0000_0000_0000) as u64
    } else {
        (bits + 0x8000_0000_0000_0000) as u64
    }
}

/// Tests a binary64 value for zero.
pub fn double_zero(bits: u64) -> (r: bool)
    ensures
        r == double_is_zero(bits),
{
    bits % 0x8000_0000_0000_0000 == 0
}

/// Compares two binary64 values.
pub fn double_compare(a: u64, b: u64) -> (r: Option<Comparison>)
    ensures
        r == double_order(a, b),
{
    if a % 0x8000_0000_0000_0000 > 0x7ff0_0000_0000_0000 || b % 0x8000_0000_0000_0000
        > 0x7ff0_0000_0000_0000 {
        return None;
    }
    let a_negative = a >= 0x8000_0000_0000_0000;
    let b_negative = b >= 0x8000_0000_0000_0000;
    let a_magnitude: u64 = a % 0x8000_0000_0000_0000;
    let b_magnitude: u64 = b % 0x8000_0000_0000_0000;
    let r = if a_negative {
        if b_negative {
            integer_compare(b_magnitude as i128, a_magnitude as i128)
        } else if a_magnitude == 0 && b_magnitude == 0 {
            Comparison::Equal
        } else {
            Comparison::Less
        }
    } else {
        if !b_negative {
            integer_compare(a_magnitude as i128, b_magnitude as i128)
        } else if a_magnitude == 0 && b_magnitude == 0 {
            Comparison::Equal
        } else {
            Comparison::Greater
        }
    };
    Some(r)
}

/// Negates a binary64 value.
pub fn double_negated(bits: u64) -> (r: u64)
    ensures
        r == double_negation(bits),
{
    if bits >= 0x8000_0000_0000_0000 {
        bits - 0x8000_0000_0000_0000
    } else {
        bits + 0x8000_0000_0000_0000
    }
}

/// A decimal that came from outside, kept only if it is well formed.
pub open spec fn checked_decimal(value: Option<DecimalValue>) -> Option<DecimalValue> {
    match value {
        Some(d) => if d.wf() {
            Some(d)
        } else {
            None
        },
        None => None,
    }
}

/// Keeps a decimal that came from outside only if it is well formed.
pub fn check_decimal(value: Option<DecimalValue>) -> (r: Option<DecimalValue>)
    ensures
        r == checked_decimal(value),
        r matches Some(d) ==> d.wf(),
{
    match value {
        Some(d) => if d.is_wf() {
            Some(d)
        } else {
            None
        },
        None => None,
    }
}

/// The decimal of an integer: the integer as mantissa with scale 0, if it
/// fits in 96 bits.
pub open spec fn decimal_of_integer(value: i128) -> Option<DecimalValue> {
    if -DECIMAL_MANTISSA_LIMIT < value < DECIMAL_MANTISSA_LIMIT {
        Some(DecimalValue { mantissa: value, scale: 0 })
    } else {
        None
    }
}

/// The decimal of an integer, if it fits.
pub fn decimal_from_integer(value: i128) -> (r: Option<DecimalValue>)
    ensures
        r == decimal_of_integer(value),
        r matches Some(d) ==> d.wf(),
{
    if -DECIMAL_MANTISSA_LIMIT < value && value < DECIMAL_MANTISSA_LIMIT {
        Some(DecimalValue { mantissa: value, scale: 0 })
    } else {
        None
    }
}

/// `mantissa` with its last `scale` decimal digits dropped.
pub open spec fn truncated_mantissa(mantissa: int, scale: nat) -> int
    decreases scale,
{
    if scale == 0 {
        mantissa
    } else {
        truncated_mantissa(truncated_quotient(mantissa, 10), (scale - 1) as nat)
    }
}

/// The integer part of a decimal: its value rounded toward zero.
pub open spec fn integer_of_decimal(value: DecimalValue) -> i128 {
    truncated_mantissa(value.mantissa as int, value.scale as nat) as i128
}

/// The integer part of a decimal.
pub fn decimal_to_integer(value: DecimalValue) -> (r: i128)
    ensures
        r == integer_of_decimal(value),
{
    let mut m: i128 = value.mantissa;
    let mut s: u32 = value.scale;
    while s > 0
        invariant
            truncated_mantissa(m as int, s as nat) == truncated_mantissa(
                value.mantissa as int,
                value.scale as nat,
            ),
        decreases s,
    {
        let q = m.checked_div(10);
        proof {
            assert(truncated_quotient(m as int, 10) == if m >= 0 {
                m as int / 10
            } else {
                -((-(m as int)) / 10)
            });
        }
        m = match q {
            Some(v) => v,
            None => 0,
        };
        s = s - 1;
    }
    m
}

/// The decimal with the opposite sign.
pub open spec fn decimal_negation(value: DecimalValue) -> DecimalValue {
    DecimalValue { mantissa: (-value.mantissa) as i128, scale: value.scale }
}

/// Negates a decimal.
pub fn decimal_negated(value: DecimalValue) -> (r: DecimalValue)
    requires
        value.wf(),
    ensures
        r == decimal_negation(value),
        r.wf(),
{
    DecimalValue { mantissa: -value.mantissa, scale: value.scale }
}

/// What `rust_decimal` gives for the checked sum of two decimals.
pub uninterp spec fn decimal_sum(left: DecimalValue, right: DecimalValue) -> Option<DecimalValue>;

/// What `rust_decimal` gives for the checked difference of two decimals.
pub uninterp spec fn decimal_difference(left: DecimalValue, right: DecimalValue) -> Option<
    DecimalValue,
>;

/// What `rust_decimal` gives for the checked product of two decimals.
pub uninterp spec fn decimal_product(left: DecimalValue, right: DecimalValue) -> Option<
    DecimalValue,
>;

/// What `rust_decimal` gives for the checked quotient of two decimals.
pub uninterp spec fn decimal_quotient(left: DecimalValue, right: DecimalValue) -> Option<
    DecimalValue,
>;

/// The power of ten with exponent `n`.
pub open spec fn power_of_ten(n: nat) -> nat
    decreases n,
{
    if n == 0 {
        1
    } else {
        10 * power_of_ten((n - 1) as nat)
    }
}

/// The order of two decimals by value: that of their mantissas brought to
/// one scale.
pub open spec fn decimal_order(left: DecimalValue, right: DecimalValue) -> Comparison {
    int_order(
        left.mantissa * power_of_ten(right.scale as nat),
        right.mantissa * power_of_ten(left.scale as nat),
    )
}

/// The text that `rust_decimal` writes for a decimal.
pub uninterp spec fn decimal_text(value: DecimalValue) -> Seq<char>;

/// The decimal that `rust_decimal` reads from a text, if it reads one.
pub uninterp spec fn decimal_parsed(text: Seq<char>) -> Option<DecimalValue>;

/// `Decimal::checked_add` of `rust_decimal`, on decimals given by mantissa
/// and scale. The result is named, not described: none stands for overflow.
#[verifier::external_body]
fn decimal_checked_add(left: DecimalValue, right: DecimalValue) -> (r: Option<DecimalValue>)
    requires
        left.wf(),
        right.wf(),
    ensures
        r == decimal_sum(left, right),
{
    let l = Decimal::from_i128_with_scale(left.mantissa, left.scale);
    let r = Decimal::from_i128_with_scale(right.mantissa, right.scale);
    l.checked_add(r).map(|d| DecimalValue { mantissa: d.mantissa(), scale: d.scale() })
}

/// `Decimal::checked_sub` of `rust_decimal`; none stands for overflow.
#[verifier::external_body]
fn decimal_checked_sub(left: DecimalValue, right: DecimalValue) -> (r: Option<DecimalValue>)
    requires
        left.wf(),
        right.wf(),
    ensures
        r == decimal_difference(left, right),
{
    let l = Decimal::from_i128_with_scale(left.mantissa, left.scale);
    let r = Decimal::from_i128_with_scale(right.mantissa, right.scale);
    l.checked_sub(r).map(|d| DecimalValue { mantissa: d.mantissa(), scale: d.scale() })
}

/// `Decimal::checked_mul` of `rust_decimal`; none stands for overflow.
#[verifier::external_body]
fn decimal_checked_mul(left: DecimalValue, right: DecimalValue) -> (r: Option<DecimalValue>)
    requires
        left.wf(),
        right.wf(),
    ensures
        r == decimal_product(left, right),
{
    let l = Decimal::from_i128_with_scale(left.mantissa, left.scale);
    let r = Decimal::from_i128_with_scale(right.mantissa, right.scale);
    l.checked_mul(r).map(|d| DecimalValue { mantissa: d.mantissa(), scale: d.scale() })
}

/// `Decimal::checked_div` of `rust_decimal`; none stands for overflow and
/// for a divisor that is zero.
#[verifier::external_body]
fn decimal_checked_div(left: DecimalValue, right: DecimalValue) -> (r: Option<DecimalValue>)
    requires
        left.wf(),
        right.wf(),
    ensures
        r == decimal_quotient(left, right),
{
    let l = Decimal::from_i128_with_scale(left.mantissa, left.scale);
    let r = Decimal::from_i128_with_scale(right.mantissa, right.scale);
    l.checked_div(r).map(|d| DecimalValue { mantissa: d.mantissa(), scale: d.scale() })
}

/// `Decimal::cmp` of `rust_decimal`, which orders decimals by value: a
/// zero of any scale equals zero, and `1.0` equals `1.00`.
#[verifier::external_body]
pub(crate) fn decimal_compare(left: DecimalValue, right: DecimalValue) -> (r: Comparison)
    requires
        left.wf(),
        right.wf(),
    ensures
        r == decimal_order(left, right),
{
    let l = Decimal::from_i128_with_scale(left.mantissa, left.scale);
    let r = Decimal::from_i128_with_scale(right.mantissa, right.scale);
    match l.cmp(&r) {
        std::cmp::Ordering::Less => Comparison::Less,
        std::cmp::Ordering::Equal => Comparison::Equal,
        std::cmp::Ordering::Greater => Comparison::Greater,
    }
}

/// The text of a decimal, as `rust_decimal` displays it.
#[verifier::external_body]
pub(crate) fn decimal_to_string(value: DecimalValue) -> (r: String)
    requires
        value.wf(),
    ensures
        r@ == decimal_text(value),
{
    Decimal::from_i128_with_scale(value.mantissa, value.scale).to_string()
}

/// The decimal that `rust_decimal` parses from `text`; none where it
/// rejects the text.
#[verifier::external_body]
fn decimal_from_str(text: &str) -> (r: Option<DecimalValue>)
    ensures
        r == decimal_parsed(text@),
{
    Decimal::from_str(text).ok().map(|d| DecimalValue { mantissa: d.mantissa(), scale: d.scale() })
}

/// Decimal arithmetic: what `rust_decimal` computes, kept only if it is a
/// well-formed decimal.
pub open spec fn decimal_arithmetic(
    operator: ArithmeticOperator,
    left: DecimalValue,
    right: DecimalValue,
) -> Option<DecimalValue> {
    checked_decimal(
        match operator {
            ArithmeticOperator::Add => decimal_sum(left, right),
            ArithmeticOperator::Sub => decimal_difference(left, right),
            ArithmeticOperator::Mul => decimal_product(left, right),
            ArithmeticOperator::Div => decimal_quotient(left, right),
        },
    )
}

/// Applies an operation to two decimals.
pub fn decimal_operation(operator: ArithmeticOperator, left: DecimalValue, right: DecimalValue) -> (r:
    Option<DecimalValue>)
    requires
        left.wf(),
        right.wf(),
    ensures
        r == decimal_arithmetic(operator, left, right),
        r matches Some(d) ==> d.wf(),
{
    let raw = match operator {
        ArithmeticOperator::Add => decimal_checked_add(left, right),
        ArithmeticOperator::Sub => decimal_checked_sub(left, right),
        ArithmeticOperator::Mul => decimal_checked_mul(left, right),
        ArithmeticOperator::Div => decimal_checked_div(left, right),
    };
    check_decimal(raw)
}

/// The decimal that a text stands for, if it stands for a well-formed one.
pub fn parse_decimal(text: &str) -> (r: Option<DecimalValue>)
    ensures
        r == checked_decimal(decimal_parsed(text@)),
        r matches Some(d) ==> d.wf(),
{
    check_decimal(decimal_from_str(text))
}

} // verus!
