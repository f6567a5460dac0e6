//! The 128-bit decimal value type and its operations.

use crate::codec;
use crate::codec::{
    difference_of, exp_of, from_i32_of, from_i64_of, from_u32_of, from_u64_of, ln_of,
    min_num_of, negation_of, parsed_of, product_of, quantized_of, quiet_eq, quiet_ge, quiet_gt,
    quiet_le, quiet_lt, quotient_of, scaled_of, sum_of, text_of, zero_test, integer_text,
    is_integer_encoding, MAX_EXPONENT, MIN_EXPONENT,
};
use crate::format::{FormatSpec, chars_of, display_text, format_text};
use dfp_number_sys::BID128;
use vstd::prelude::*;

verus! {

/// A 128-bit decimal floating point value (IEEE 754-2008 decimal128).
///
/// Equality and order go by numeric value: `1.20` and `1.2` are equal
/// though their encodings differ.
#[derive(Clone, Copy)]
pub struct Decimal128 {
    bits: BID128,
}

impl View for Decimal128 {
    type V = BID128;

    /// The encoding held.
    closed spec fn view(&self) -> BID128 {
        self.bits
    }
}

/// The quantum that `round_dp` quantizes to: `1` scaled by `10^-dp`.
pub open spec fn quantum_of(dp: i32) -> BID128 {
    scaled_of(from_u32_of(1), -dp as i32)
}

impl Decimal128 {
    /// `n * 10^-s`: the coefficient `n` with exponent `-s`, which must lie in
    /// decimal128's exponent range.
    pub fn new(n: i64, s: i32) -> (r: Decimal128)
        requires
            -MAX_EXPONENT <= s <= -MIN_EXPONENT,
        ensures
            r@ == scaled_of(from_i64_of(n), -s as i32),
    {
        let b = codec::from_i64(n);
        assert(is_integer_encoding(b));
        Decimal128 { bits: codec::scale(b, -s) }
    }

    /// `0`, with exponent `0`.
    pub fn zero() -> (r: Decimal128)
        ensures
            r@ == from_u32_of(0),
            text_of(r@) == integer_text(0),
    {
        Decimal128 { bits: codec::from_u32(0) }
    }

    /// Whether the value is `+0` or `-0`, in any cohort.
    pub fn is_zero(&self) -> (r: bool)
        ensures
            r == zero_test(self@),
    {
        codec::is_zero(self.bits)
    }

    /// `1`, with exponent `0`.
    pub fn one() -> (r: Decimal128)
        ensures
            r@ == from_u32_of(1),
            text_of(r@) == integer_text(1),
    {
        Decimal128 { bits: codec::from_u32(1) }
    }

    /// `2`, with exponent `0`.
    pub fn two() -> (r: Decimal128)
        ensures
            r@ == from_u32_of(2),
            text_of(r@) == integer_text(2),
    {
        Decimal128 { bits: codec::from_u32(2) }
    }

    /// `10`, with exponent `0`.
    pub fn ten() -> (r: Decimal128)
        ensures
            r@ == from_u32_of(10),
            text_of(r@) == integer_text(10),
    {
        Decimal128 { bits: codec::from_u32(10) }
    }

    /// `100`, with exponent `0`.
    pub fn one_hundred() -> (r: Decimal128)
        ensures
            r@ == from_u32_of(100),
            text_of(r@) == integer_text(100),
    {
        Decimal128 { bits: codec::from_u32(100) }
    }

    /// `1000`, with exponent `0`.
    pub fn one_thousand() -> (r: Decimal128)
        ensures
            r@ == from_u32_of(1000),
            text_of(r@) == integer_text(1000),
    {
        Decimal128 { bits: codec::from_u32(1000) }
    }

    /// Natural logarithm, rounded to nearest even.
    pub fn ln(&self) -> (r: Decimal128)
        ensures
            r@ == ln_of(self@),
    {
        Decimal128 { bits: codec::ln(self.bits) }
    }

    /// `e` to the power of the value, rounded to nearest even.
    pub fn exp(&self) -> (r: Decimal128)
        ensures
            r@ == exp_of(self@),
    {
        Decimal128 { bits: codec::exp(self.bits) }
    }

    /// The value rounded to `dp` decimal places (to the left of the point
    /// when `dp` is negative), ties to even: the value quantized to the
    /// exponent of `10^-dp`, which must lie in decimal128's exponent range.
    pub fn round_dp(&self, dp: i32) -> (r: Decimal128)
        requires
            -MAX_EXPONENT <= dp <= -MIN_EXPONENT,
        ensures
            r@ == quantized_of(self@, quantum_of(dp)),
    {
        let one = codec::from_u32(1);
        assert(is_integer_encoding(one));
        let q = codec::scale(one, -dp);
        Decimal128 { bits: codec::quantize(self.bits, q) }
    }

    /// The codec's scientific text: a sign, the coefficient digits, `E` and
    /// a signed exponent (`+123456E-2`), or `+Inf`, `-NaN`, `+SNaN` and the like.
    pub fn to_debug_string(&self) -> (r: String)
        ensures
            r@ == text_of(self@),
    {
        codec::to_text(self.bits)
    }

    /// Positional text of the value under the options `f` (`1234.56` for
    /// `+123456E-2`); infinities and NaNs keep their scientific text.
    pub fn format(&self, f: &FormatSpec) -> (r: String)
        ensures
            r@ == display_text(text_of(self@), *f),
    {
        let t = codec::to_text(self.bits);
        format_text(t.as_str(), f)
    }
}

impl core::ops::Neg for Decimal128 {
    type Output = Decimal128;

    /// The value with its sign reversed.
    fn neg(self) -> (r: Decimal128)
        ensures
            r@ == negation_of(self@),
    {
        Decimal128 { bits: codec::negate(self.bits) }
    }
}

impl vstd::std_specs::ops::NegSpecImpl for Decimal128 {
    open spec fn obeys_neg_spec() -> bool {
        true
    }

    open spec fn neg_req(self) -> bool {
        true
    }

    closed spec fn neg_spec(self) -> Decimal128 {
        Decimal128 { bits: negation_of(self@) }
    }
}

impl core::ops::Add for Decimal128 {
    type Output = Decimal128;

    /// Sum, rounded to nearest even.
    fn add(self, rhs: Decimal128) -> (r: Decimal128)
        ensures
            r@ == sum_of(self@, rhs@),
    {
        Decimal128 { bits: codec::add(self.bits, rhs.bits) }
    }
}

impl vstd::std_specs::ops::AddSpecImpl for Decimal128 {
    open spec fn obeys_add_spec() -> bool {
        true
    }

    open spec fn add_req(self, rhs: Decimal128) -> bool {
        true
    }

    closed spec fn add_spec(self, rhs: Decimal128) -> Decimal128 {
        Decimal128 { bits: sum_of(self@, rhs@) }
    }
}

impl core::ops::AddAssign for Decimal128 {
    /// Replaces the value by the sum, rounded to nearest even.
    fn add_assign(&mut self, rhs: Decimal128)
        ensures
            final(self)@ == sum_of(old(self)@, rhs@),
    {
        self.bits = codec::add(self.bits, rhs.bits);
    }
}

impl core::ops::Sub for Decimal128 {
    type Output = Decimal128;

    /// Difference, rounded to nearest even.
    fn sub(self, rhs: Decimal128) -> (r: Decimal128)
        ensures
            r@ == difference_of(self@, rhs@),
    {
        Decimal128 { bits: codec::subtract(self.bits, rhs.bits) }
    }
}

impl vstd::std_specs::ops::SubSpecImpl for Decimal128 {
    open spec fn obeys_sub_spec() -> bool {
        true
    }

    open spec fn sub_req(self, rhs: Decimal128) -> bool {
        true
    }

    closed spec fn sub_spec(self, rhs: Decimal128) -> Decimal128 {
        Decimal128 { bits: difference_of(self@, rhs@) }
    }
}

impl core::ops::SubAssign for Decimal128 {
    /// Replaces the value by the difference, rounded to nearest even.
    fn sub_assign(&mut self, rhs: Decimal128)
        ensures
            final(self)@ == difference_of(old(self)@, rhs@),
    {
        self.bits = codec::subtract(self.bits, rhs.bits);
    }
}

impl core::ops::Mul for Decimal128 {
    type Output = Decimal128;

    /// Product, rounded to nearest even.
    fn mul(self, rhs: Decimal128) -> (r: Decimal128)
        ensures
            r@ == product_of(self@, rhs@),
    {
        Decimal128 { bits: codec::multiply(self.bits, rhs.bits) }
    }
}

impl vstd::std_specs::ops::MulSpecImpl for Decimal128 {
    open spec fn obeys_mul_spec() -> bool {
        true
    }

    open spec fn mul_req(self, rhs: Decimal128) -> bool {
        true
    }

    closed spec fn mul_spec(self, rhs: Decimal128) -> Decimal128 {
        Decimal128 { bits: product_of(self@, rhs@) }
    }
}

impl core::ops::MulAssign for Decimal128 {
    /// Replaces the value by the product, rounded to nearest even.
    fn mul_assign(&mut self, rhs: Decimal128)
        ensures
            final(self)@ == product_of(old(self)@, rhs@),
    {
        self.bits = codec::multiply(self.bits, rhs.bits);
    }
}

impl core::ops::Div for Decimal128 {
    type Output = Decimal128;

    /// Quotient, rounded to nearest even.
    fn div(self, rhs: Decimal128) -> (r: Decimal128)
        ensures
            r@ == quotient_of(self@, rhs@),
    {
        Decimal128 { bits: codec::divide(self.bits, rhs.bits) }
    }
}

impl vstd::std_specs::ops::DivSpecImpl for Decimal128 {
    open spec fn obeys_div_spec() -> bool {
        true
    }

    open spec fn div_req(self, rhs: Decimal128) -> bool {
        true
    }

    closed spec fn div_spec(self, rhs: Decimal128) -> Decimal128 {
        Decimal128 { bits: quotient_of(self@, rhs@) }
    }
}

impl core::ops::DivAssign for Decimal128 {
    /// Replaces the value by the quotient, rounded to nearest even.
    fn div_assign(&mut self, rhs: Decimal128)
        ensures
            final(self)@ == quotient_of(old(self)@, rhs@),
    {
        self.bits = codec::divide(self.bits, rhs.bits);
    }
}

impl PartialEq for Decimal128 {
    /// Equality of numeric value (quiet: a NaN equals nothing).
    fn eq(&self, rhs: &Decimal128) -> (r: bool) {
        codec::eq(self.bits, rhs.bits)
    }
}

impl vstd::std_specs::cmp::PartialEqSpecImpl for Decimal128 {
    open spec fn obeys_eq_spec() -> bool {
        true
    }

    open spec fn eq_spec(&self, rhs: &Decimal128) -> bool {
        quiet_eq(self@, rhs@)
    }
}

impl Eq for Decimal128 {

}

/// The three-way order that `partial_cmp` and `cmp` give: equal when the
/// quiet equality holds, else less when the quiet less-than holds, else
/// greater (so a NaN on either side orders as greater).
pub open spec fn order_of(x: BID128, y: BID128) -> core::cmp::Ordering {
    if quiet_eq(x, y) {
        core::cmp::Ordering::Equal
    } else if quiet_lt(x, y) {
        core::cmp::Ordering::Less
    } else {
        core::cmp::Ordering::Greater
    }
}

impl PartialOrd for Decimal128 {
    /// Three-way order by numeric value; see `order_of`.
    fn partial_cmp(&self, rhs: &Decimal128) -> (r: Option<core::cmp::Ordering>)
        ensures
            r == Some(order_of(self@, rhs@)),
    {
        if codec::eq(self.bits, rhs.bits) {
            return Some(core::cmp::Ordering::Equal);
        }
        if codec::lt(self.bits, rhs.bits) {
            return Some(core::cmp::Ordering::Less);
        }
        Some(core::cmp::Ordering::Greater)
    }

    /// Quiet less-than.
    fn lt(&self, rhs: &Decimal128) -> (r: bool)
        ensures
            r == quiet_lt(self@, rhs@),
    {
        codec::lt(self.bits, rhs.bits)
    }

    /// Quiet less-than-or-equal.
    fn le(&self, rhs: &Decimal128) -> (r: bool)
        ensures
            r == quiet_le(self@, rhs@),
    {
        codec::le(self.bits, rhs.bits)
    }

    /// Quiet greater-than.
    fn gt(&self, rhs: &Decimal128) -> (r: bool)
        ensures
            r == quiet_gt(self@, rhs@),
    {
        codec::gt(self.bits, rhs.bits)
    }

    /// Quiet greater-than-or-equal.
    fn ge(&self, rhs: &Decimal128) -> (r: bool)
        ensures
            r == quiet_ge(self@, rhs@),
    {
        codec::ge(self.bits, rhs.bits)
    }
}

/// `lt`, `le`, `gt` and `ge` each ask the codec's own quiet predicate, which
/// answers `false` for a NaN where `partial_cmp` answers `Greater`: the
/// predicates are not derived from `partial_cmp`, so the trait's link
/// between them is not claimed. Each method states its own result.
impl vstd::std_specs::cmp::PartialOrdSpecImpl for Decimal128 {
    open spec fn obeys_partial_cmp_spec() -> bool {
        false
    }

    open spec fn partial_cmp_spec(&self, rhs: &Decimal128) -> Option<core::cmp::Ordering> {
        Some(order_of(self@, rhs@))
    }
}

impl Decimal128 {
    /// Three-way order by numeric value; see `order_of`.
    pub fn cmp(&self, rhs: &Decimal128) -> (r: core::cmp::Ordering)
        ensures
            r == order_of(self@, rhs@),
    {
        if codec::eq(self.bits, rhs.bits) {
            return core::cmp::Ordering::Equal;
        }
        if codec::lt(self.bits, rhs.bits) {
            return core::cmp::Ordering::Less;
        }
        core::cmp::Ordering::Greater
    }

    /// What the codec's `minnum` gives: `max` and `min` answer alike.
    pub fn max(self, rhs: Decimal128) -> (r: Decimal128)
        ensures
            r@ == min_num_of(self@, rhs@),
    {
        Decimal128 { bits: codec::min_num(self.bits, rhs.bits) }
    }

    /// The smaller operand, as the codec's `minnum` picks it.
    pub fn min(self, rhs: Decimal128) -> (r: Decimal128)
        ensures
            r@ == min_num_of(self@, rhs@),
    {
        Decimal128 { bits: codec::min_num(self.bits, rhs.bits) }
    }
}

/// The characters `NaN`.
pub open spec fn nan_text() -> Seq<char> {
    seq!['N', 'a', 'N']
}

/// What a text decodes to. The codec's decoder does not take a text that
/// holds a NUL character (its binding panics on one): such a text is
/// malformed and decodes as a NaN.
pub open spec fn text_value(s: Seq<char>) -> BID128 {
    if s.contains('\0') {
        parsed_of(nan_text())
    } else {
        parsed_of(s)
    }
}

/// Whether `s` holds a NUL character.
fn has_nul(s: &str) -> (r: bool)
    ensures
        r == s@.contains('\0'),
{
    let v = chars_of(s);
    let mut i: usize = 0;
    while i < v.len()
        invariant
            v@ == s@,
            i <= v@.len(),
            forall|j: int| 0 <= j < i ==> v@[j] != '\0',
        decreases v@.len() - i,
    {
        if v[i] == '\0' {
            assert(s@[i as int] == '\0');
            return true;
        }
        i += 1;
    }
    false
}

impl Decimal128 {
    /// Decodes a text: an optional sign, digits with an optional decimal
    /// point, an optional exponent (`E` or `e`, optionally signed), or one of
    /// `Inf`, `Infinity`, `NaN`, `SNaN` in any case, optionally signed.
    /// Never fails: malformed text decodes as the codec decides, mostly NaN.
    pub fn parse(s: &str) -> (r: Decimal128)
        ensures
            r@ == text_value(s@),
    {
        if has_nul(s) {
            let nan = "NaN";
            proof {
                reveal_strlit("NaN");
                assert(nan@ =~= nan_text());
            }
            Decimal128 { bits: codec::from_text(nan) }
        } else {
            Decimal128 { bits: codec::from_text(s) }
        }
    }
}

impl<'a> From<&'a str> for Decimal128 {
    /// Decodes a text; see `parse`.
    fn from(s: &'a str) -> (r: Decimal128)
        ensures
            r@ == text_value(s@),
    {
        Decimal128::parse(s)
    }
}

impl<'a> vstd::std_specs::convert::FromSpecImpl<&'a str> for Decimal128 {
    open spec fn obeys_from_spec() -> bool {
        true
    }

    closed spec fn from_spec(s: &'a str) -> Decimal128 {
        Decimal128 { bits: text_value(s@) }
    }
}

impl core::str::FromStr for Decimal128 {
    type Err = core::convert::Infallible;

    /// Decodes a text; see `parse`. Always `Ok`.
    fn from_str(s: &str) -> (r: Result<Decimal128, core::convert::Infallible>)
        ensures
            r matches Ok(d) && d@ == text_value(s@),
    {
        Ok(Decimal128::parse(s))
    }
}

impl Default for Decimal128 {
    /// `0`, with exponent `0`.
    fn default() -> (r: Decimal128)
        ensures
            r@ == from_u32_of(0),
            text_of(r@) == integer_text(0),
            text_of(r@) == integer_text(0),
    {
        Decimal128::zero()
    }
}

impl From<u8> for Decimal128 {
    /// The integer, exactly, with exponent `0`.
    fn from(n: u8) -> (r: Decimal128)
        ensures
            r@ == from_u32_of(n as u32),
            text_of(r@) == integer_text(n as int),
    {
        Decimal128 { bits: codec::from_u32(n as u32) }
    }
}

impl vstd::std_specs::convert::FromSpecImpl<u8> for Decimal128 {
    open spec fn obeys_from_spec() -> bool {
        true
    }

    closed spec fn from_spec(n: u8) -> Decimal128 {
        Decimal128 { bits: from_u32_of(n as u32) }
    }
}

impl From<i8> for Decimal128 {
    /// The integer, exactly, with exponent `0`.
    fn from(n: i8) -> (r: Decimal128)
        ensures
            r@ == from_i32_of(n as i32),
            text_of(r@) == integer_text(n as int),
    {
        Decimal128 { bits: codec::from_i32(n as i32) }
    }
}

impl vstd::std_specs::convert::FromSpecImpl<i8> for Decimal128 {
    open spec fn obeys_from_spec() -> bool {
        true
    }

    closed spec fn from_spec(n: i8) -> Decimal128 {
        Decimal128 { bits: from_i32_of(n as i32) }
    }
}

impl From<u16> for Decimal128 {
    /// The integer, exactly, with exponent `0`.
    fn from(n: u16) -> (r: Decimal128)
        ensures
            r@ == from_u32_of(n as u32),
            text_of(r@) == integer_text(n as int),
    {
        Decimal128 { bits: codec::from_u32(n as u32) }
    }
}

impl vstd::std_specs::convert::FromSpecImpl<u16> for Decimal128 {
    open spec fn obeys_from_spec() -> bool {
        true
    }

    closed spec fn from_spec(n: u16) -> Decimal128 {
        Decimal128 { bits: from_u32_of(n as u32) }
    }
}

impl From<i16> for Decimal128 {
    /// The integer, exactly, with exponent `0`.
    fn from(n: i16) -> (r: Decimal128)
        ensures
            r@ == from_i32_of(n as i32),
            text_of(r@) == integer_text(n as int),
    {
        Decimal128 { bits: codec::from_i32(n as i32) }
    }
}

impl vstd::std_specs::convert::FromSpecImpl<i16> for Decimal128 {
    open spec fn obeys_from_spec() -> bool {
        true
    }

    closed spec fn from_spec(n: i16) -> Decimal128 {
        Decimal128 { bits: from_i32_of(n as i32) }
    }
}

impl From<u32> for Decimal128 {
    /// The integer, exactly, with exponent `0`.
    fn from(n: u32) -> (r: Decimal128)
        ensures
            r@ == from_u32_of(n),
            text_of(r@) == integer_text(n as int),
    {
        Decimal128 { bits: codec::from_u32(n) }
    }
}

impl vstd::std_specs::convert::FromSpecImpl<u32> for Decimal128 {
    open spec fn obeys_from_spec() -> bool {
        true
    }

    closed spec fn from_spec(n: u32) -> Decimal128 {
        Decimal128 { bits: from_u32_of(n) }
    }
}

impl From<i32> for Decimal128 {
    /// The integer, exactly, with exponent `0`.
    fn from(n: i32) -> (r: Decimal128)
        ensures
            r@ == from_i32_of(n),
            text_of(r@) == integer_text(n as int),
    {
        Decimal128 { bits: codec::from_i32(n) }
    }
}

impl vstd::std_specs::convert::FromSpecImpl<i32> for Decimal128 {
    open spec fn obeys_from_spec() -> bool {
        true
    }

    closed spec fn from_spec(n: i32) -> Decimal128 {
        Decimal128 { bits: from_i32_of(n) }
    }
}

impl From<u64> for Decimal128 {
    /// The integer, exactly, with exponent `0`.
    fn from(n: u64) -> (r: Decimal128)
        ensures
            r@ == from_u64_of(n),
            text_of(r@) == integer_text(n as int),
    {
        Decimal128 { bits: codec::from_u64(n) }
    }
}

impl vstd::std_specs::convert::FromSpecImpl<u64> for Decimal128 {
    open spec fn obeys_from_spec() -> bool {
        true
    }

    closed spec fn from_spec(n: u64) -> Decimal128 {
        Decimal128 { bits: from_u64_of(n) }
    }
}

impl From<i64> for Decimal128 {
    /// The integer, exactly, with exponent `0`.
    fn from(n: i64) -> (r: Decimal128)
        ensures
            r@ == from_i64_of(n),
            text_of(r@) == integer_text(n as int),
    {
        Decimal128 { bits: codec::from_i64(n) }
    }
}

impl vstd::std_specs::convert::FromSpecImpl<i64> for Decimal128 {
    open spec fn obeys_from_spec() -> bool {
        true
    }

    closed spec fn from_spec(n: i64) -> Decimal128 {
        Decimal128 { bits: from_i64_of(n) }
    }
}

impl From<usize> for Decimal128 {
    /// The integer, exactly, with exponent `0`.
    fn from(n: usize) -> (r: Decimal128)
        ensures
            r@ == from_u64_of(n as u64),
            text_of(r@) == integer_text(n as int),
    {
        Decimal128 { bits: codec::from_u64(n as u64) }
    }
}

impl vstd::std_specs::convert::FromSpecImpl<usize> for Decimal128 {
    open spec fn obeys_from_spec() -> bool {
        true
    }

    closed spec fn from_spec(n: usize) -> Decimal128 {
        Decimal128 { bits: from_u64_of(n as u64) }
    }
}

impl From<isize> for Decimal128 {
    /// The integer, exactly, with exponent `0`.
    fn from(n: isize) -> (r: Decimal128)
        ensures
            r@ == from_i64_of(n as i64),
            text_of(r@) == integer_text(n as int),
    {
        Decimal128 { bits: codec::from_i64(n as i64) }
    }
}

impl vstd::std_specs::convert::FromSpecImpl<isize> for Decimal128 {
    open spec fn obeys_from_spec() -> bool {
        true
    }

    closed spec fn from_spec(n: isize) -> Decimal128 {
        Decimal128 { bits: from_i64_of(n as i64) }
    }
}

/// Formatting depends on the value's encoding and the options alone: two
/// values with one encoding, formatted under one set of options, read the
/// same, however often it is done.
pub proof fn law_format_is_pure(x: Decimal128, y: Decimal128, f: FormatSpec)
    requires
        x@ == y@,
    ensures
        display_text(text_of(x@), f) == display_text(text_of(y@), f),
{
}

} // verus!
