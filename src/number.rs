//! Numbers of the language: IEEE-754 doubles, held as their bit patterns.
//!
//! Comparison, equality, negation and the zero test are defined here over the
//! bits. Parsing, rendering and the four rounding operations are done by
//! `rustc_apfloat`, whose results are named by the uninterpreted functions below.
use vstd::prelude::*;

use rustc_apfloat::ieee::Double;
use rustc_apfloat::Float;

verus! {

/// The bit pattern of the double nearest to a decimal numeral.
pub uninterp spec fn decimal_value(s: Seq<char>) -> u64;

/// The decimal rendering of a double.
pub uninterp spec fn number_text(n: u64) -> Seq<char>;

/// `a + b`, rounded to nearest, ties to even.
pub uninterp spec fn ieee_sum(a: u64, b: u64) -> u64;

/// `a - b`, rounded to nearest, ties to even.
pub uninterp spec fn ieee_difference(a: u64, b: u64) -> u64;

/// `a * b`, rounded to nearest, ties to even.
pub uninterp spec fn ieee_product(a: u64, b: u64) -> u64;

/// `a / b`, rounded to nearest, ties to even.
pub uninterp spec fn ieee_quotient(a: u64, b: u64) -> u64;

pub open spec fn is_digit(c: char) -> bool {
    '0' <= c && c <= '9'
}

/// `s` splits at `k` into digits and, unless `k` is its end, a dot followed
/// by digits.
pub open spec fn numeral_split(s: Seq<char>, k: int) -> bool {
    &&& 0 < k <= s.len()
    &&& forall|i: int| 0 <= i < k ==> is_digit(#[trigger] s[i])
    &&& (k == s.len() || (s[k] == '.' && k + 1 < s.len() && forall|i: int|
        k < i < s.len() ==> is_digit(#[trigger] s[i])))
}

/// A numeral as the lexer reads it: digits, optionally followed by a dot and
/// more digits.
pub open spec fn is_numeral(s: Seq<char>) -> bool {
    exists|k: int| numeral_split(s, k)
}

pub const SIGN_MASK: u64 = 0x8000_0000_0000_0000;

pub const MAGNITUDE_MASK: u64 = 0x7fff_ffff_ffff_ffff;

pub const INFINITY_BITS: u64 = 0x7ff0_0000_0000_0000;

/// The bits of a double without its sign.
pub open spec fn magnitude(n: u64) -> u64 {
    n & MAGNITUDE_MASK
}

/// A double is not a number when its exponent is all ones and its fraction
/// is not zero: exactly when its magnitude exceeds that of infinity.
pub open spec fn is_nan(n: u64) -> bool {
    magnitude(n) > INFINITY_BITS
}

pub open spec fn is_negative(n: u64) -> bool {
    n >= SIGN_MASK
}

/// Both zeros.
pub open spec fn is_zero(n: u64) -> bool {
    magnitude(n) == 0
}

/// Outside NaN, doubles are ordered as their magnitudes are, with the sign
/// reversing the order; the two zeros share the key 0.
pub open spec fn order_key(n: u64) -> int {
    if is_negative(n) {
        -(magnitude(n) as int)
    } else {
        magnitude(n) as int
    }
}

/// IEEE equality: NaN equals nothing, the two zeros are equal.
pub open spec fn number_eq(a: u64, b: u64) -> bool {
    !is_nan(a) && !is_nan(b) && order_key(a) == order_key(b)
}

pub open spec fn number_lt(a: u64, b: u64) -> bool {
    !is_nan(a) && !is_nan(b) && order_key(a) < order_key(b)
}

pub open spec fn number_le(a: u64, b: u64) -> bool {
    !is_nan(a) && !is_nan(b) && order_key(a) <= order_key(b)
}

/// Negation flips the sign bit, NaN included.
pub open spec fn negated(n: u64) -> u64 {
    n ^ SIGN_MASK
}

fn key(n: u64) -> (r: i128)
    ensures
        r == order_key(n),
{
    let m = n & MAGNITUDE_MASK;
    if n >= SIGN_MASK {
        -(m as i128)
    } else {
        m as i128
    }
}

pub fn nan(n: u64) -> (r: bool)
    ensures
        r == is_nan(n),
{
    n & MAGNITUDE_MASK > INFINITY_BITS
}

pub fn zero(n: u64) -> (r: bool)
    ensures
        r == is_zero(n),
{
    n & MAGNITUDE_MASK == 0
}

pub fn equal(a: u64, b: u64) -> (r: bool)
    ensures
        r == number_eq(a, b),
{
    !nan(a) && !nan(b) && key(a) == key(b)
}

pub fn less(a: u64, b: u64) -> (r: bool)
    ensures
        r == number_lt(a, b),
{
    !nan(a) && !nan(b) && key(a) < key(b)
}

pub fn less_equal(a: u64, b: u64) -> (r: bool)
    ensures
        r == number_le(a, b),
{
    !nan(a) && !nan(b) && key(a) <= key(b)
}

pub fn negate(n: u64) -> (r: u64)
    ensures
        r == negated(n),
{
    n ^ SIGN_MASK
}

/// Relies on `rustc_apfloat`'s `FromStr` for `Double` (`from_str_r` with
/// ties to even): it succeeds on every numeral of digits with at most one dot
/// and gives the nearest double.
#[verifier::external_body]
pub(crate) fn parse_numeral(s: &str) -> (r: Option<u64>)
    ensures
        is_numeral(s@) ==> r == Some(decimal_value(s@)),
{
    s.parse::<Double>().ok().map(|d| d.to_bits() as u64)
}

/// Relies on `rustc_apfloat`'s `Display` for `Double`: a decimal rendering of
/// the value, with up to 17 significant digits and a width of 17 zeros before
/// it turns to scientific notation. This is not std's `f64` rendering: 0.1
/// prints as `0.10000000000000001`, 1e20 as `1.0E+20`, infinity as `+Inf`
/// and NaN as `NaN`; integers of up to 17 digits print in full.
#[verifier::external_body]
pub(crate) fn render_number(n: u64) -> (r: String)
    ensures
        r@ == number_text(n),
{
    format!("{:17}", Double::from_bits(n as u128))
}

/// Relies on `rustc_apfloat`'s `Add` for `Double`: IEEE addition.
#[verifier::external_body]
pub(crate) fn sum(a: u64, b: u64) -> (r: u64)
    ensures
        r == ieee_sum(a, b),
{
    (Double::from_bits(a as u128) + Double::from_bits(b as u128)).value.to_bits() as u64
}

/// Relies on `rustc_apfloat`'s `Sub` for `Double`: IEEE subtraction.
#[verifier::external_body]
pub(crate) fn subtract(a: u64, b: u64) -> (r: u64)
    ensures
        r == ieee_difference(a, b),
{
    (Double::from_bits(a as u128) - Double::from_bits(b as u128)).value.to_bits() as u64
}

/// Relies on `rustc_apfloat`'s `Mul` for `Double`: IEEE multiplication.
#[verifier::external_body]
pub(crate) fn multiply(a: u64, b: u64) -> (r: u64)
    ensures
        r == ieee_product(a, b),
{
    (Double::from_bits(a as u128) * Double::from_bits(b as u128)).value.to_bits() as u64
}

/// Relies on `rustc_apfloat`'s `Div` for `Double`: IEEE division.
#[verifier::external_body]
pub(crate) fn divide(a: u64, b: u64) -> (r: u64)
    ensures
        r == ieee_quotient(a, b),
{
    (Double::from_bits(a as u128) / Double::from_bits(b as u128)).value.to_bits() as u64
}

} // verus!
