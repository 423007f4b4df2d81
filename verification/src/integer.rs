//! Signed integers of any size: a sign flag over a magnitude.

use vstd::prelude::*;
use vstd::arithmetic::power::pow;
use core::cmp::Ordering;
use vstd::std_specs::cmp::{PartialEqSpec, PartialOrdSpec};
use crate::heapint::HeapInt;
use vstd::string::StringSliceAdditionalSpecFns;
use crate::format::{format_decimal, text_of, ascii_string, lemma_text_is_ascii};
use crate::parsing::{parse_integer, parse_integer_spec, ParseError};

verus! {

/// The absolute value of `a`.
pub open spec fn magnitude_of(a: int) -> nat {
    if a < 0 {
        (-a) as nat
    } else {
        a as nat
    }
}

/// The quotient of `a` by `b` rounded toward zero. Its sign follows the
/// usual sign rule.
pub open spec fn trunc_div(a: int, b: int) -> int
    recommends
        b != 0,
{
    if (a < 0) == (b < 0) {
        (magnitude_of(a) / magnitude_of(b)) as int
    } else {
        -((magnitude_of(a) / magnitude_of(b)) as int)
    }
}

/// The remainder that goes with `trunc_div`. It has the sign of `a`.
pub open spec fn trunc_rem(a: int, b: int) -> int
    recommends
        b != 0,
{
    if a < 0 {
        -((magnitude_of(a) % magnitude_of(b)) as int)
    } else {
        (magnitude_of(a) % magnitude_of(b)) as int
    }
}

/// Truncating quotient and remainder recompose the dividend, and the
/// remainder is smaller in magnitude than the divisor.
pub proof fn lemma_trunc_div_rem(a: int, b: int)
    requires
        b != 0,
    ensures
        a == trunc_div(a, b) * b + trunc_rem(a, b),
        magnitude_of(trunc_rem(a, b)) < magnitude_of(b),
        a >= 0 ==> trunc_rem(a, b) >= 0,
        a <= 0 ==> trunc_rem(a, b) <= 0,
{
    let x = magnitude_of(a) as int;
    let y = magnitude_of(b) as int;
    assert(x == (x / y) * y + x % y && 0 <= x % y < y) by (nonlinear_arith)
        requires
            y > 0,
            x >= 0,
    ;
    let q = x / y;
    assert((-q) * b == -(q * b)) by (nonlinear_arith);
    assert(q * (-y) == -(q * y)) by (nonlinear_arith);
    assert((-q) * (-y) == q * y) by (nonlinear_arith);
}

/// A signed integer of any size.
///
/// Zero has a single representation: the sign flag is clear and the
/// magnitude is zero.
#[derive(Debug, Hash)]
pub struct SafeInt {
    negative: bool,
    magnitude: HeapInt,
}

impl View for SafeInt {
    type V = int;

    /// The integer that this value denotes.
    closed spec fn view(&self) -> int {
        if self.negative {
            -(self.magnitude.value() as int)
        } else {
            self.magnitude.value() as int
        }
    }
}

impl SafeInt {
    /// The representation invariant: the magnitude is well formed, and the
    /// sign flag is set only on a non-zero magnitude.
    pub closed spec fn wf(&self) -> bool {
        self.magnitude.wf() && (self.negative ==> self.magnitude.value() != 0)
    }

    /// Whether the magnitude is held inline, without a buffer.
    pub closed spec fn inline(&self) -> bool {
        self.magnitude.inline()
    }

    /// A well-formed integer needs no buffer exactly when its magnitude is
    /// below `2^120`.
    pub proof fn lemma_inline_iff_small(&self)
        requires
            self.wf(),
        ensures
            self.inline() <==> magnitude_of(self@) < crate::heapint::INLINE_LIMIT,
    {
        self.magnitude.lemma_inline_iff_small();
    }

    /// Zero.
    pub fn zero() -> (r: SafeInt)
        ensures
            r.wf(),
            r@ == 0,
    {
        SafeInt { negative: false, magnitude: HeapInt::zero() }
    }

    /// The integer with the given sign and magnitude. A zero magnitude gives
    /// zero whatever the sign asked for.
    pub fn from_parts(negative: bool, magnitude: HeapInt) -> (r: SafeInt)
        requires
            magnitude.wf(),
        ensures
            r.wf(),
            r@ == (if negative {
                -(magnitude.value() as int)
            } else {
                magnitude.value() as int
            }),
    {
        let negative = negative && !magnitude.is_zero();
        SafeInt { negative, magnitude }
    }

    /// The integer `v`.
    pub fn from_u128(v: u128) -> (r: SafeInt)
        ensures
            r.wf(),
            r@ == v,
    {
        SafeInt { negative: false, magnitude: HeapInt::from_u128(v) }
    }

    /// The integer `v`.
    pub fn from_i128(v: i128) -> (r: SafeInt)
        ensures
            r.wf(),
            r@ == v,
    {
        if v >= 0 {
            SafeInt { negative: false, magnitude: HeapInt::from_u128(v as u128) }
        } else {
            let m: u128 = (-(v + 1)) as u128 + 1;
            SafeInt { negative: true, magnitude: HeapInt::from_u128(m) }
        }
    }

    /// The integer `v`.
    pub fn from_i64(v: i64) -> (r: SafeInt)
        ensures
            r.wf(),
            r@ == v,
    {
        SafeInt::from_i128(v as i128)
    }

    /// The integer `v`.
    pub fn from_u64(v: u64) -> (r: SafeInt)
        ensures
            r.wf(),
            r@ == v,
    {
        SafeInt::from_u128(v as u128)
    }

    /// The value as an `i128`, where it fits.
    pub fn to_i128(&self) -> (r: Option<i128>)
        requires
            self.wf(),
        ensures
            r is Some <==> i128::MIN <= self@ <= i128::MAX,
            r matches Some(v) ==> v == self@,
    {
        match self.magnitude.to_u128() {
            None => None,
            Some(m) => {
                if !self.negative {
                    if m <= 0x7fff_ffff_ffff_ffff_ffff_ffff_ffff_ffff {
                        Some(m as i128)
                    } else {
                        None
                    }
                } else if m <= 0x7fff_ffff_ffff_ffff_ffff_ffff_ffff_ffff {
                    Some(-(m as i128))
                } else if m == 0x8000_0000_0000_0000_0000_0000_0000_0000 {
                    Some(i128::MIN)
                } else {
                    None
                }
            },
        }
    }

    /// The magnitude, without the sign.
    pub fn magnitude(&self) -> (r: &HeapInt)
        requires
            self.wf(),
        ensures
            r.wf(),
            r.value() == magnitude_of(self@),
            r.inline() == self.inline(),
    {
        &self.magnitude
    }

    /// Whether the value is zero.
    pub fn is_zero(&self) -> (r: bool)
        ensures
            r == (self@ == 0),
    {
        self.magnitude.is_zero()
    }

    /// Whether the value is below zero.
    pub fn is_negative(&self) -> (r: bool)
        requires
            self.wf(),
        ensures
            r == (self@ < 0),
    {
        self.negative
    }

    /// Whether the value is above zero.
    pub fn is_positive(&self) -> (r: bool)
        requires
            self.wf(),
        ensures
            r == (self@ > 0),
    {
        !self.negative && !self.magnitude.is_zero()
    }

    /// Whether the value is odd.
    pub fn is_odd(&self) -> (r: bool)
        requires
            self.wf(),
        ensures
            r == (self@ % 2 == 1),
    {
        let odd = self.magnitude.is_odd();
        proof {
            let m = self.magnitude.value() as int;
            assert((-m) % 2 == m % 2) by (nonlinear_arith);
        }
        odd
    }

    /// Whether the value is even.
    pub fn is_even(&self) -> (r: bool)
        requires
            self.wf(),
        ensures
            r == (self@ % 2 == 0),
    {
        !self.is_odd()
    }

    /// The value with its sign reversed.
    pub fn neg(&self) -> (r: SafeInt)
        requires
            self.wf(),
        ensures
            r.wf(),
            r@ == -self@,
    {
        SafeInt::from_parts(!self.negative, self.magnitude.clone())
    }

    /// The absolute value.
    pub fn abs(&self) -> (r: SafeInt)
        requires
            self.wf(),
        ensures
            r.wf(),
            r@ == magnitude_of(self@),
    {
        SafeInt { negative: false, magnitude: self.magnitude.clone() }
    }

    /// The sum of two signed values given as sign and magnitude.
    fn combine(a_negative: bool, a: &HeapInt, b_negative: bool, b: &HeapInt) -> (r: SafeInt)
        requires
            a.wf(),
            b.wf(),
        ensures
            r.wf(),
            r@ == (if a_negative {
                -(a.value() as int)
            } else {
                a.value() as int
            }) + (if b_negative {
                -(b.value() as int)
            } else {
                b.value() as int
            }),
    {
        if a_negative == b_negative {
            SafeInt::from_parts(a_negative, a.add(b))
        } else {
            match a.checked_sub(b) {
                Some(d) => SafeInt::from_parts(a_negative, d),
                None => {
                    match b.checked_sub(a) {
                        Some(d) => SafeInt::from_parts(b_negative, d),
                        None => SafeInt::zero(),
                    }
                },
            }
        }
    }

    /// The sum.
    pub fn add(&self, other: &SafeInt) -> (r: SafeInt)
        requires
            self.wf(),
            other.wf(),
        ensures
            r.wf(),
            r@ == self@ + other@,
    {
        SafeInt::combine(self.negative, &self.magnitude, other.negative, &other.magnitude)
    }

    /// The difference.
    pub fn sub(&self, other: &SafeInt) -> (r: SafeInt)
        requires
            self.wf(),
            other.wf(),
        ensures
            r.wf(),
            r@ == self@ - other@,
    {
        SafeInt::combine(self.negative, &self.magnitude, !other.negative, &other.magnitude)
    }

    /// The product.
    pub fn mul(&self, other: &SafeInt) -> (r: SafeInt)
        requires
            self.wf(),
            other.wf(),
        ensures
            r.wf(),
            r@ == self@ * other@,
    {
        let m = self.magnitude.mul(&other.magnitude);
        proof {
            let x = self.magnitude.value() as int;
            let y = other.magnitude.value() as int;
            assert((-x) * y == -(x * y)) by (nonlinear_arith);
            assert(x * (-y) == -(x * y)) by (nonlinear_arith);
            assert((-x) * (-y) == x * y) by (nonlinear_arith);
        }
        SafeInt::from_parts(self.negative != other.negative, m)
    }

    /// The quotient rounded toward zero, or `None` when `other` is zero.
    pub fn div(&self, other: &SafeInt) -> (r: Option<SafeInt>)
        requires
            self.wf(),
            other.wf(),
        ensures
            r is Some <==> other@ != 0,
            r matches Some(q) ==> q.wf() && q@ == trunc_div(self@, other@),
    {
        match self.magnitude.checked_div_rem(&other.magnitude) {
            None => None,
            Some((q, _)) => Some(SafeInt::from_parts(self.negative != other.negative, q)),
        }
    }

    /// The remainder of the division rounded toward zero, which has the sign
    /// of `self`; `None` when `other` is zero.
    pub fn rem(&self, other: &SafeInt) -> (r: Option<SafeInt>)
        requires
            self.wf(),
            other.wf(),
        ensures
            r is Some <==> other@ != 0,
            r matches Some(m) ==> m.wf() && m@ == trunc_rem(self@, other@),
    {
        match self.magnitude.checked_div_rem(&other.magnitude) {
            None => None,
            Some((_, m)) => Some(SafeInt::from_parts(self.negative, m)),
        }
    }

    /// The value raised to `exponent`; anything to the power zero is one.
    pub fn pow(&self, exponent: u32) -> (r: SafeInt)
        requires
            self.wf(),
        ensures
            r.wf(),
            r@ == pow(self@, exponent as nat),
    {
        let m = self.magnitude.pow(exponent);
        proof {
            lemma_pow_of_negation(self.magnitude.value() as int, exponent as nat);
        }
        SafeInt::from_parts(self.negative && exponent % 2 == 1, m)
    }

    /// Whether the two values are equal.
    pub fn equals(&self, other: &SafeInt) -> (r: bool)
        ensures
            r == (self@ == other@),
    {
        self.magnitude.same(&other.magnitude) && (self.negative == other.negative
            || self.magnitude.is_zero())
    }

    /// Whether `self` is strictly below `other`: by sign first, then by
    /// magnitude.
    pub fn less_than(&self, other: &SafeInt) -> (r: bool)
        ensures
            r == (self@ < other@),
    {
        if self.negative {
            if other.negative {
                other.magnitude.less(&self.magnitude)
            } else {
                !(self.magnitude.is_zero() && other.magnitude.is_zero())
            }
        } else if other.negative {
            false
        } else {
            self.magnitude.less(&other.magnitude)
        }
    }

    /// Whether `self` is strictly above `other`.
    pub fn greater_than(&self, other: &SafeInt) -> (r: bool)
        ensures
            r == (self@ > other@),
    {
        other.less_than(self)
    }

    /// Parses an integer literal: an optional sign and one or more digits.
    pub fn parse(text: &[u8]) -> (r: Result<SafeInt, ParseError>)
        ensures
            match parse_integer_spec(text@) {
                Ok(v) => r matches Ok(n) && n.wf() && n@ == v,
                Err(e) => r matches Err(x) && x == e,
            },
    {
        parse_integer(text)
    }

    /// Parses an integer literal given as a string: see `parse`.
    pub fn from_str(s: &str) -> (r: Result<SafeInt, ParseError>)
        ensures
            match parse_integer_spec(s.spec_bytes()) {
                Ok(v) => r matches Ok(n) && n.wf() && n@ == v,
                Err(e) => r matches Err(x) && x == e,
            },
    {
        parse_integer(s.as_bytes())
    }

    /// The decimal text of the value as ASCII bytes: a minus sign where it
    /// is negative, then its digits without leading zeros.
    pub fn to_text(&self) -> (r: Vec<u8>)
        requires
            self.wf(),
        ensures
            r@ == text_of(self@, 0),
    {
        format_decimal(self, 0)
    }

    /// The decimal text of the value as a string: see `to_text`.
    pub fn to_string(&self) -> (r: String)
        requires
            self.wf(),
        ensures
            r@ == text_of(self@, 0).map_values(|b: u8| b as char),
    {
        let bytes = self.to_text();
        proof {
            lemma_text_is_ascii(self@, 0);
        }
        ascii_string(bytes)
    }

    /// Whether the value equals the native integer `n`.
    pub fn equals_native(&self, n: i128) -> (r: bool)
        ensures
            r == (self@ == n),
    {
        self.equals(&SafeInt::from_i128(n))
    }

    /// Whether the value is strictly below the native integer `n`.
    pub fn less_than_native(&self, n: i128) -> (r: bool)
        ensures
            r == (self@ < n),
    {
        self.less_than(&SafeInt::from_i128(n))
    }

    /// Whether the value is strictly above the native integer `n`.
    pub fn greater_than_native(&self, n: i128) -> (r: bool)
        ensures
            r == (self@ > n),
    {
        SafeInt::from_i128(n).less_than(self)
    }

    /// Whether the native integer `n` equals `value`.
    pub fn native_equals(n: i128, value: &SafeInt) -> (r: bool)
        ensures
            r == (n == value@),
    {
        SafeInt::from_i128(n).equals(value)
    }

    /// Whether the native integer `n` is strictly below `value`.
    pub fn native_less_than(n: i128, value: &SafeInt) -> (r: bool)
        ensures
            r == (n < value@),
    {
        SafeInt::from_i128(n).less_than(value)
    }

    /// Whether the native integer `n` is strictly above `value`.
    pub fn native_greater_than(n: i128, value: &SafeInt) -> (r: bool)
        ensures
            r == (n > value@),
    {
        value.less_than(&SafeInt::from_i128(n))
    }

    /// Replaces the value by its negation.
    pub fn neg_assign(&mut self)
        requires
            old(self).wf(),
        ensures
            final(self).wf(),
            final(self)@ == -old(self)@,
    {
        *self = self.neg();
    }

    /// Replaces the value by its sum with `other`.
    pub fn add_assign(&mut self, other: &SafeInt)
        requires
            old(self).wf(),
            other.wf(),
        ensures
            final(self).wf(),
            final(self)@ == old(self)@ + other@,
    {
        *self = self.add(other);
    }

    /// Replaces the value by its difference with `other`.
    pub fn sub_assign(&mut self, other: &SafeInt)
        requires
            old(self).wf(),
            other.wf(),
        ensures
            final(self).wf(),
            final(self)@ == old(self)@ - other@,
    {
        *self = self.sub(other);
    }

    /// Replaces the value by its product with `other`.
    pub fn mul_assign(&mut self, other: &SafeInt)
        requires
            old(self).wf(),
            other.wf(),
        ensures
            final(self).wf(),
            final(self)@ == old(self)@ * other@,
    {
        *self = self.mul(other);
    }

    /// Replaces the value by its quotient by `other`, rounded toward zero.
    /// Returns `false`, and leaves the value as it was, when `other` is
    /// zero.
    pub fn div_assign(&mut self, other: &SafeInt) -> (done: bool)
        requires
            old(self).wf(),
            other.wf(),
        ensures
            done == (other@ != 0),
            final(self).wf(),
            done ==> final(self)@ == trunc_div(old(self)@, other@),
            !done ==> final(self)@ == old(self)@,
    {
        match self.div(other) {
            Some(q) => {
                *self = q;
                true
            },
            None => false,
        }
    }

    /// Replaces the value by its remainder by `other`, which has the sign
    /// of the old value. Returns `false`, and leaves the value as it was,
    /// when `other` is zero.
    pub fn rem_assign(&mut self, other: &SafeInt) -> (done: bool)
        requires
            old(self).wf(),
            other.wf(),
        ensures
            done == (other@ != 0),
            final(self).wf(),
            done ==> final(self)@ == trunc_rem(old(self)@, other@),
            !done ==> final(self)@ == old(self)@,
    {
        match self.rem(other) {
            Some(m) => {
                *self = m;
                true
            },
            None => false,
        }
    }
}

impl SafeInt {
    /// The integer `v`, as `from` builds it.
    pub closed spec fn of_i64(v: i64) -> SafeInt {
        SafeInt {
            negative: v < 0,
            magnitude: HeapInt::U120(
                if v < 0 {
                    (-v) as u128
                } else {
                    v as u128
                },
            ),
        }
    }

    /// `of_i64` is well formed and denotes its argument.
    pub proof fn lemma_of_i64(v: i64)
        ensures
            SafeInt::of_i64(v).wf(),
            SafeInt::of_i64(v)@ == v,
    {
    }
}

impl core::str::FromStr for SafeInt {
    type Err = ParseError;

    /// Parses an integer literal as `SafeInt::from_str` does.
    fn from_str(s: &str) -> (r: Result<SafeInt, ParseError>)
        ensures
            match parse_integer_spec(s.spec_bytes()) {
                Ok(v) => r matches Ok(n) && n.wf() && n@ == v,
                Err(e) => r matches Err(x) && x == e,
            },
    {
        parse_integer(s.as_bytes())
    }
}

impl Clone for SafeInt {
    /// A copy that denotes the same integer.
    fn clone(&self) -> (r: SafeInt)
        ensures
            r.wf() == self.wf(),
            r@ == self@,
            r.inline() == self.inline(),
    {
        SafeInt { negative: self.negative, magnitude: self.magnitude.clone() }
    }
}

impl Default for SafeInt {
    /// Zero.
    fn default() -> (r: SafeInt)
        ensures
            r.wf(),
            r@ == 0,
    {
        SafeInt::zero()
    }
}

impl From<i64> for SafeInt {
    /// The integer `v`.
    fn from(v: i64) -> (r: SafeInt)
        ensures
            r.wf(),
            r@ == v,
    {
        if v < 0 {
            SafeInt { negative: true, magnitude: HeapInt::U120((-(v as i128)) as u128) }
        } else {
            SafeInt { negative: false, magnitude: HeapInt::U120(v as u128) }
        }
    }
}

impl vstd::std_specs::convert::FromSpecImpl<i64> for SafeInt {
    open spec fn obeys_from_spec() -> bool {
        true
    }

    open spec fn from_spec(v: i64) -> SafeInt {
        SafeInt::of_i64(v)
    }
}

impl PartialEq for SafeInt {
    /// Whether the two values denote the same integer.
    fn eq(&self, other: &SafeInt) -> (r: bool) {
        self.equals(other)
    }
}

impl Eq for SafeInt {

}

impl vstd::std_specs::cmp::PartialEqSpecImpl for SafeInt {
    open spec fn obeys_eq_spec() -> bool {
        true
    }

    open spec fn eq_spec(&self, other: &SafeInt) -> bool {
        self@ == other@
    }
}

impl PartialEq<i64> for SafeInt {
    /// Whether the value denotes the native integer `other`.
    fn eq(&self, other: &i64) -> (r: bool) {
        self.equals(&SafeInt::from(*other))
    }
}

impl vstd::std_specs::cmp::PartialEqSpecImpl<i64> for SafeInt {
    open spec fn obeys_eq_spec() -> bool {
        true
    }

    open spec fn eq_spec(&self, other: &i64) -> bool {
        self@ == *other
    }
}

impl PartialOrd for SafeInt {
    /// The order of the integers that the two values denote.
    fn partial_cmp(&self, other: &SafeInt) -> (r: Option<Ordering>) {
        if self.less_than(other) {
            Some(Ordering::Less)
        } else if other.less_than(self) {
            Some(Ordering::Greater)
        } else {
            Some(Ordering::Equal)
        }
    }
}

impl vstd::std_specs::cmp::PartialOrdSpecImpl for SafeInt {
    open spec fn obeys_partial_cmp_spec() -> bool {
        true
    }

    open spec fn partial_cmp_spec(&self, other: &SafeInt) -> Option<Ordering> {
        if self@ < other@ {
            Some(Ordering::Less)
        } else if self@ > other@ {
            Some(Ordering::Greater)
        } else {
            Some(Ordering::Equal)
        }
    }
}

impl core::ops::Neg for SafeInt {
    type Output = SafeInt;

    /// The value with its sign reversed.
    fn neg(self) -> (r: SafeInt)
        ensures
            r.wf(),
            r@ == -self@,
    {
        SafeInt::from_parts(!self.negative, self.magnitude)
    }
}

impl vstd::std_specs::ops::NegSpecImpl for SafeInt {
    /// No value is named for the result at this level: what the operator
    /// returns is stated by the `ensures` of `neg` itself.
    open spec fn obeys_neg_spec() -> bool {
        false
    }

    open spec fn neg_req(self) -> bool {
        self.wf()
    }

    open spec fn neg_spec(self) -> SafeInt {
        arbitrary()
    }
}

impl core::ops::Add for SafeInt {
    type Output = SafeInt;

    /// The sum.
    fn add(self, rhs: SafeInt) -> (r: SafeInt)
        ensures
            r.wf(),
            r@ == self@ + rhs@,
    {
        SafeInt::add(&self, &rhs)
    }
}

impl vstd::std_specs::ops::AddSpecImpl for SafeInt {
    /// No value is named for the result at this level: what the operator
    /// returns is stated by the `ensures` of `add` itself.
    open spec fn obeys_add_spec() -> bool {
        false
    }

    open spec fn add_req(self, rhs: SafeInt) -> bool {
        self.wf() && rhs.wf()
    }

    open spec fn add_spec(self, rhs: SafeInt) -> SafeInt {
        arbitrary()
    }
}

impl core::ops::Sub for SafeInt {
    type Output = SafeInt;

    /// The difference.
    fn sub(self, rhs: SafeInt) -> (r: SafeInt)
        ensures
            r.wf(),
            r@ == self@ - rhs@,
    {
        SafeInt::sub(&self, &rhs)
    }
}

impl vstd::std_specs::ops::SubSpecImpl for SafeInt {
    /// No value is named for the result at this level: what the operator
    /// returns is stated by the `ensures` of `sub` itself.
    open spec fn obeys_sub_spec() -> bool {
        false
    }

    open spec fn sub_req(self, rhs: SafeInt) -> bool {
        self.wf() && rhs.wf()
    }

    open spec fn sub_spec(self, rhs: SafeInt) -> SafeInt {
        arbitrary()
    }
}

impl core::ops::Mul for SafeInt {
    type Output = SafeInt;

    /// The product.
    fn mul(self, rhs: SafeInt) -> (r: SafeInt)
        ensures
            r.wf(),
            r@ == self@ * rhs@,
    {
        SafeInt::mul(&self, &rhs)
    }
}

impl vstd::std_specs::ops::MulSpecImpl for SafeInt {
    /// No value is named for the result at this level: what the operator
    /// returns is stated by the `ensures` of `mul` itself.
    open spec fn obeys_mul_spec() -> bool {
        false
    }

    open spec fn mul_req(self, rhs: SafeInt) -> bool {
        self.wf() && rhs.wf()
    }

    open spec fn mul_spec(self, rhs: SafeInt) -> SafeInt {
        arbitrary()
    }
}

impl core::ops::Div for SafeInt {
    type Output = Option<SafeInt>;

    /// The quotient rounded toward zero, or `None` when `rhs` is zero.
    fn div(self, rhs: SafeInt) -> (r: Option<SafeInt>)
        ensures
            r is Some <==> rhs@ != 0,
            r matches Some(q) ==> q.wf() && q@ == trunc_div(self@, rhs@),
    {
        SafeInt::div(&self, &rhs)
    }
}

impl vstd::std_specs::ops::DivSpecImpl for SafeInt {
    /// No value is named for the result at this level: what the operator
    /// returns is stated by the `ensures` of `div` itself.
    open spec fn obeys_div_spec() -> bool {
        false
    }

    open spec fn div_req(self, rhs: SafeInt) -> bool {
        self.wf() && rhs.wf()
    }

    open spec fn div_spec(self, rhs: SafeInt) -> Option<SafeInt> {
        arbitrary()
    }
}

impl core::ops::Rem for SafeInt {
    type Output = Option<SafeInt>;

    /// The remainder with the sign of `self`, or `None` when `rhs` is zero.
    fn rem(self, rhs: SafeInt) -> (r: Option<SafeInt>)
        ensures
            r is Some <==> rhs@ != 0,
            r matches Some(m) ==> m.wf() && m@ == trunc_rem(self@, rhs@),
    {
        SafeInt::rem(&self, &rhs)
    }
}

impl vstd::std_specs::ops::RemSpecImpl for SafeInt {
    /// No value is named for the result at this level: what the operator
    /// returns is stated by the `ensures` of `rem` itself.
    open spec fn obeys_rem_spec() -> bool {
        false
    }

    open spec fn rem_req(self, rhs: SafeInt) -> bool {
        self.wf() && rhs.wf()
    }

    open spec fn rem_spec(self, rhs: SafeInt) -> Option<SafeInt> {
        arbitrary()
    }
}

impl PartialOrd<i64> for SafeInt {
    /// The order of the value and the native integer `other`.
    fn partial_cmp(&self, other: &i64) -> (r: Option<Ordering>) {
        if self.less_than(&SafeInt::from(*other)) {
            Some(Ordering::Less)
        } else if SafeInt::from(*other).less_than(self) {
            Some(Ordering::Greater)
        } else {
            Some(Ordering::Equal)
        }
    }
}

impl vstd::std_specs::cmp::PartialOrdSpecImpl<i64> for SafeInt {
    open spec fn obeys_partial_cmp_spec() -> bool {
        true
    }

    open spec fn partial_cmp_spec(&self, other: &i64) -> Option<Ordering> {
        if self@ < *other {
            Some(Ordering::Less)
        } else if self@ > *other {
            Some(Ordering::Greater)
        } else {
            Some(Ordering::Equal)
        }
    }
}

impl PartialEq<SafeInt> for i64 {
    /// Whether the native integer is the one that `other` denotes.
    fn eq(&self, other: &SafeInt) -> (r: bool) {
        SafeInt::from(*self).equals(other)
    }
}

impl vstd::std_specs::cmp::PartialEqSpecImpl<SafeInt> for i64 {
    open spec fn obeys_eq_spec() -> bool {
        true
    }

    open spec fn eq_spec(&self, other: &SafeInt) -> bool {
        *self == other@
    }
}

impl PartialOrd<SafeInt> for i64 {
    /// The order of the native integer and the value `other`.
    fn partial_cmp(&self, other: &SafeInt) -> (r: Option<Ordering>) {
        if SafeInt::from(*self).less_than(other) {
            Some(Ordering::Less)
        } else if other.less_than(&SafeInt::from(*self)) {
            Some(Ordering::Greater)
        } else {
            Some(Ordering::Equal)
        }
    }
}

impl vstd::std_specs::cmp::PartialOrdSpecImpl<SafeInt> for i64 {
    open spec fn obeys_partial_cmp_spec() -> bool {
        true
    }

    open spec fn partial_cmp_spec(&self, other: &SafeInt) -> Option<Ordering> {
        if *self < other@ {
            Some(Ordering::Less)
        } else if *self > other@ {
            Some(Ordering::Greater)
        } else {
            Some(Ordering::Equal)
        }
    }
}

/// Zero is the identity of addition: where `left` is what `add` gives for
/// `a` and zero, and `right` what it gives for zero and `a`, both equal `a`.
pub proof fn lemma_add_identity(a: SafeInt, zero: SafeInt, left: SafeInt, right: SafeInt)
    requires
        zero@ == 0,
        left@ == a@ + zero@,
        right@ == zero@ + a@,
    ensures
        left.eq_spec(&a),
        right.eq_spec(&a),
{
}

/// Addition is associative: where `ab` is what `add` gives for `a` and `b`,
/// `bc` what it gives for `b` and `c`, `left` what it gives for `ab` and
/// `c`, and `right` what it gives for `a` and `bc`, then `left` equals
/// `right`.
pub proof fn lemma_add_associative(
    a: SafeInt,
    b: SafeInt,
    c: SafeInt,
    ab: SafeInt,
    bc: SafeInt,
    left: SafeInt,
    right: SafeInt,
)
    requires
        ab@ == a@ + b@,
        bc@ == b@ + c@,
        left@ == ab@ + c@,
        right@ == a@ + bc@,
    ensures
        left.eq_spec(&right),
{
}

/// A comparison with a native integer gives the same answer from either
/// side: `a < n` exactly when `n > a`, `a > n` exactly when `n < a`, and
/// `a == n` exactly when `n == a`.
pub proof fn lemma_native_comparison_symmetry(a: SafeInt, n: i64)
    ensures
        (a.partial_cmp_spec(&n) == Some(Ordering::Less)) == (n.partial_cmp_spec(&a) == Some(
            Ordering::Greater,
        )),
        (a.partial_cmp_spec(&n) == Some(Ordering::Greater)) == (n.partial_cmp_spec(&a) == Some(
            Ordering::Less,
        )),
        a.eq_spec(&n) == n.eq_spec(&a),
{
}

/// The power of a negated base: negated again for an odd exponent.
pub proof fn lemma_pow_of_negation(x: int, e: nat)
    ensures
        pow(-x, e) == (if e % 2 == 1 {
            -pow(x, e)
        } else {
            pow(x, e)
        }),
        x >= 0 ==> pow(x, e) >= 0,
    decreases e,
{
    reveal(pow);
    if e > 0 {
        lemma_pow_of_negation(x, (e - 1) as nat);
        let p = pow(x, (e - 1) as nat);
        assert((-x) * p == -(x * p)) by (nonlinear_arith);
        assert((-x) * (-p) == x * p) by (nonlinear_arith);
        assert(x >= 0 && p >= 0 ==> x * p >= 0) by (nonlinear_arith);
    }
}

} // verus!
