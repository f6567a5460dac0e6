//! The decimal128 codec and arithmetic of `dfp_number_sys`, one trusted
//! wrapper per function. Exception flags are always cleared before a call
//! and discarded after it; the rounding mode is always nearest, ties to even.

use dfp_number_sys::bid128_000::{
    bid128_add, bid128_div, bid128_exp, bid128_from_int32, bid128_from_int64,
    bid128_from_string, bid128_from_uint32, bid128_from_uint64, bid128_is_zero, bid128_log,
    bid128_minnum, bid128_mul, bid128_negate, bid128_quantize, bid128_quiet_equal,
    bid128_quiet_greater, bid128_quiet_greater_equal, bid128_quiet_less,
    bid128_quiet_less_equal, bid128_scalbn, bid128_sub, bid128_to_string,
};
use dfp_number_sys::{BID128, FB_CLEAR, RM_NEAREST_EVEN};
use vstd::prelude::*;

verus! {

/// The 128-bit encoded decimal of `dfp_number_sys`, carried as an opaque value.
#[verifier::external_type_specification]
#[verifier::external_body]
pub struct ExBid128(BID128);

/// What `bid128_to_string` writes for an encoding.
pub uninterp spec fn text_of(x: BID128) -> Seq<char>;

/// What `bid128_from_string` decodes from a text.
pub uninterp spec fn parsed_of(s: Seq<char>) -> BID128;

/// What `bid128_from_int32` encodes.
pub uninterp spec fn from_i32_of(n: i32) -> BID128;

/// What `bid128_from_int64` encodes.
pub uninterp spec fn from_i64_of(n: i64) -> BID128;

/// What `bid128_from_uint32` encodes.
pub uninterp spec fn from_u32_of(n: u32) -> BID128;

/// What `bid128_from_uint64` encodes.
pub uninterp spec fn from_u64_of(n: u64) -> BID128;

/// What `bid128_scalbn` returns: `x * 10^n`.
pub uninterp spec fn scaled_of(x: BID128, n: i32) -> BID128;

/// Smallest exponent of a decimal128 value.
pub const MIN_EXPONENT: i32 = -6176;

/// Largest exponent of a decimal128 value.
pub const MAX_EXPONENT: i32 = 6111;

/// An integer as the integer conversions encode it: at most twenty digits,
/// exponent `0`.
pub open spec fn is_integer_encoding(x: BID128) -> bool {
    (exists|k: i64| x == #[trigger] from_i64_of(k)) || (exists|k: u32| x == #[trigger] from_u32_of(k))
}

/// Digit characters, by value.
pub open spec fn digit_chars() -> Seq<char> {
    seq!['0', '1', '2', '3', '4', '5', '6', '7', '8', '9']
}

/// Decimal digits of `n`, without leading zeros.
pub open spec fn decimal_digits(n: nat) -> Seq<char>
    decreases n,
{
    if n < 10 {
        seq![digit_chars()[n as int]]
    } else {
        decimal_digits(n / 10) + seq![digit_chars()[(n % 10) as int]]
    }
}

/// The codec's text of the integer `v` encoded with exponent `0`: its sign,
/// its digits, then `E+0`.
pub open spec fn integer_text(v: int) -> Seq<char> {
    (if v < 0 {
        seq!['-']
    } else {
        seq!['+']
    }) + decimal_digits(if v < 0 {
        (-v) as nat
    } else {
        v as nat
    }) + seq!['E', '+', '0']
}

/// What `bid128_quantize` returns: `x` with the exponent of `q`.
pub uninterp spec fn quantized_of(x: BID128, q: BID128) -> BID128;

/// What `bid128_add` returns.
pub uninterp spec fn sum_of(x: BID128, y: BID128) -> BID128;

/// What `bid128_sub` returns.
pub uninterp spec fn difference_of(x: BID128, y: BID128) -> BID128;

/// What `bid128_mul` returns.
pub uninterp spec fn product_of(x: BID128, y: BID128) -> BID128;

/// What `bid128_div` returns.
pub uninterp spec fn quotient_of(x: BID128, y: BID128) -> BID128;

/// What `bid128_negate` returns.
pub uninterp spec fn negation_of(x: BID128) -> BID128;

/// What `bid128_log` returns.
pub uninterp spec fn ln_of(x: BID128) -> BID128;

/// What `bid128_exp` returns.
pub uninterp spec fn exp_of(x: BID128) -> BID128;

/// What `bid128_minnum` returns.
pub uninterp spec fn min_num_of(x: BID128, y: BID128) -> BID128;

/// What `bid128_quiet_equal` answers.
pub uninterp spec fn quiet_eq(x: BID128, y: BID128) -> bool;

/// What `bid128_quiet_less` answers.
pub uninterp spec fn quiet_lt(x: BID128, y: BID128) -> bool;

/// What `bid128_quiet_less_equal` answers.
pub uninterp spec fn quiet_le(x: BID128, y: BID128) -> bool;

/// What `bid128_quiet_greater` answers.
pub uninterp spec fn quiet_gt(x: BID128, y: BID128) -> bool;

/// What `bid128_quiet_greater_equal` answers.
pub uninterp spec fn quiet_ge(x: BID128, y: BID128) -> bool;

/// What `bid128_is_zero` answers.
pub uninterp spec fn zero_test(x: BID128) -> bool;

/// Relies on `bid128_to_string`: the text of an encoding, which depends on
/// the encoding alone.
#[verifier::external_body]
pub(crate) fn to_text(x: BID128) -> (r: String)
    ensures
        r@ == text_of(x),
{
    let mut flags = FB_CLEAR;
    bid128_to_string(x, &mut flags)
}

/// Relies on `bid128_from_string`: decodes a text under rounding to nearest
/// even. It panics on a text with a NUL character, which is left out.
#[verifier::external_body]
pub(crate) fn from_text(s: &str) -> (r: BID128)
    requires
        !s@.contains('\0'),
    ensures
        r == parsed_of(s@),
{
    let mut flags = FB_CLEAR;
    bid128_from_string(s, RM_NEAREST_EVEN, &mut flags)
}

/// Relies on `bid128_from_int32`: encodes an integer exactly, with exponent `0`.
#[verifier::external_body]
pub(crate) fn from_i32(n: i32) -> (r: BID128)
    ensures
        r == from_i32_of(n),
        text_of(r) == integer_text(n as int),
{
    bid128_from_int32(n)
}

/// Relies on `bid128_from_int64`: encodes an integer exactly, with exponent `0`.
#[verifier::external_body]
pub(crate) fn from_i64(n: i64) -> (r: BID128)
    ensures
        r == from_i64_of(n),
        text_of(r) == integer_text(n as int),
{
    bid128_from_int64(n)
}

/// Relies on `bid128_from_uint32`: encodes an integer exactly, with exponent `0`.
#[verifier::external_body]
pub(crate) fn from_u32(n: u32) -> (r: BID128)
    ensures
        r == from_u32_of(n),
        text_of(r) == integer_text(n as int),
{
    bid128_from_uint32(n)
}

/// Relies on `bid128_from_uint64`: encodes an integer exactly, with exponent `0`.
#[verifier::external_body]
pub(crate) fn from_u64(n: u64) -> (r: BID128)
    ensures
        r == from_u64_of(n),
        text_of(r) == integer_text(n as int),
{
    bid128_from_uint64(n)
}

/// Relies on `bid128_scalbn`: `x * 10^n`. The binding passes the C function
/// neither a rounding mode nor a flags pointer, which it reads when the
/// result leaves the exponent range or the input is a signalling NaN. An
/// integer encoding given exponent `n` inside the range takes neither path:
/// the coefficient is kept and the exponent set to `n`, exactly.
#[verifier::external_body]
pub(crate) fn scale(x: BID128, n: i32) -> (r: BID128)
    requires
        is_integer_encoding(x),
        MIN_EXPONENT <= n <= MAX_EXPONENT,
    ensures
        r == scaled_of(x, n),
{
    bid128_scalbn(x, n)
}

/// Relies on `bid128_quantize`: `x` re-expressed with the exponent of `q`,
/// rounding to nearest even.
#[verifier::external_body]
pub(crate) fn quantize(x: BID128, q: BID128) -> (r: BID128)
    ensures
        r == quantized_of(x, q),
{
    let mut flags = FB_CLEAR;
    bid128_quantize(x, q, RM_NEAREST_EVEN, &mut flags)
}

/// Relies on `bid128_add`, rounding to nearest even.
#[verifier::external_body]
pub(crate) fn add(x: BID128, y: BID128) -> (r: BID128)
    ensures
        r == sum_of(x, y),
{
    let mut flags = FB_CLEAR;
    bid128_add(x, y, RM_NEAREST_EVEN, &mut flags)
}

/// Relies on `bid128_sub`, rounding to nearest even.
#[verifier::external_body]
pub(crate) fn subtract(x: BID128, y: BID128) -> (r: BID128)
    ensures
        r == difference_of(x, y),
{
    let mut flags = FB_CLEAR;
    bid128_sub(x, y, RM_NEAREST_EVEN, &mut flags)
}

/// Relies on `bid128_mul`, rounding to nearest even.
#[verifier::external_body]
pub(crate) fn multiply(x: BID128, y: BID128) -> (r: BID128)
    ensures
        r == product_of(x, y),
{
    let mut flags = FB_CLEAR;
    bid128_mul(x, y, RM_NEAREST_EVEN, &mut flags)
}

/// Relies on `bid128_div`, rounding to nearest even.
#[verifier::external_body]
pub(crate) fn divide(x: BID128, y: BID128) -> (r: BID128)
    ensures
        r == quotient_of(x, y),
{
    let mut flags = FB_CLEAR;
    bid128_div(x, y, RM_NEAREST_EVEN, &mut flags)
}

/// Relies on `bid128_negate`: the sign reversed.
#[verifier::external_body]
pub(crate) fn negate(x: BID128) -> (r: BID128)
    ensures
        r == negation_of(x),
{
    bid128_negate(x)
}

/// Relies on `bid128_log`: the natural logarithm, rounding to nearest even.
#[verifier::external_body]
pub(crate) fn ln(x: BID128) -> (r: BID128)
    ensures
        r == ln_of(x),
{
    let mut flags = FB_CLEAR;
    bid128_log(x, RM_NEAREST_EVEN, &mut flags)
}

/// Relies on `bid128_exp`: `e` to the power `x`, rounding to nearest even.
#[verifier::external_body]
pub(crate) fn exp(x: BID128) -> (r: BID128)
    ensures
        r == exp_of(x),
{
    let mut flags = FB_CLEAR;
    bid128_exp(x, RM_NEAREST_EVEN, &mut flags)
}

/// Relies on `bid128_minnum`: the smaller operand, canonicalized.
#[verifier::external_body]
pub(crate) fn min_num(x: BID128, y: BID128) -> (r: BID128)
    ensures
        r == min_num_of(x, y),
{
    let mut flags = FB_CLEAR;
    bid128_minnum(x, y, &mut flags)
}

/// Relies on `bid128_quiet_equal`.
#[verifier::external_body]
pub(crate) fn eq(x: BID128, y: BID128) -> (r: bool)
    ensures
        r == quiet_eq(x, y),
{
    let mut flags = FB_CLEAR;
    bid128_quiet_equal(x, y, &mut flags)
}

/// Relies on `bid128_quiet_less`.
#[verifier::external_body]
pub(crate) fn lt(x: BID128, y: BID128) -> (r: bool)
    ensures
        r == quiet_lt(x, y),
{
    let mut flags = FB_CLEAR;
    bid128_quiet_less(x, y, &mut flags)
}

/// Relies on `bid128_quiet_less_equal`.
#[verifier::external_body]
pub(crate) fn le(x: BID128, y: BID128) -> (r: bool)
    ensures
        r == quiet_le(x, y),
{
    let mut flags = FB_CLEAR;
    bid128_quiet_less_equal(x, y, &mut flags)
}

/// Relies on `bid128_quiet_greater`.
#[verifier::external_body]
pub(crate) fn gt(x: BID128, y: BID128) -> (r: bool)
    ensures
        r == quiet_gt(x, y),
{
    let mut flags = FB_CLEAR;
    bid128_quiet_greater(x, y, &mut flags)
}

/// Relies on `bid128_quiet_greater_equal`.
#[verifier::external_body]
pub(crate) fn ge(x: BID128, y: BID128) -> (r: bool)
    ensures
        r == quiet_ge(x, y),
{
    let mut flags = FB_CLEAR;
    bid128_quiet_greater_equal(x, y, &mut flags)
}

/// Relies on `bid128_is_zero`: `+0` or `-0`, in any cohort.
#[verifier::external_body]
pub(crate) fn is_zero(x: BID128) -> (r: bool)
    ensures
        r == zero_test(x),
{
    bid128_is_zero(x)
}

} // verus!
