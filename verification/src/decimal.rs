//! Fixed-point decimals: a signed integer read with `D` implied fractional
//! digits.

use vstd::prelude::*;
use vstd::arithmetic::power::{pow, lemma_pow_positive};
use vstd::arithmetic::div_mod::{lemma_div_by_multiple, lemma_mod_multiples_basic};
use vstd::string::StringSliceAdditionalSpecFns;
use core::cmp::Ordering;
use vstd::std_specs::cmp::{PartialEqSpec, PartialOrdSpec};
use crate::integer::{SafeInt, trunc_div, trunc_rem};
use crate::parsing::{parse_decimal, parse_spec, ParseError, ParseReason};
use crate::format::{format_decimal, text_of, ascii_string, lemma_text_is_ascii};
use crate::codec::{encode, decode, encode_spec, decode_spec, DecodeError};

verus! {

/// The largest scale that arithmetic accepts.
pub const MAX_SCALE: usize = 1_000_000;

/// The largest scale that text rendering accepts.
pub const MAX_FORMAT_SCALE: usize = 10_000;

/// Whether a scale lies within both ceilings.
pub open spec fn valid_scale(d: nat) -> bool {
    d <= MAX_SCALE && d <= MAX_FORMAT_SCALE
}

/// `10^d`, the factor between a raw integer and the units it counts.
pub open spec fn pow10(d: nat) -> int {
    pow(10, d)
}

/// `pow10` is positive.
pub proof fn lemma_pow10_positive(d: nat)
    ensures
        pow10(d) > 0,
{
    lemma_pow_positive(10, d);
}

/// The raw integer of an integer `n` at scale `d`.
pub open spec fn scaled(n: int, d: nat) -> int {
    n * pow10(d)
}

/// The raw product of two raw integers at scale `d`: the exact product with
/// its `d` excess digits cut off toward zero.
pub open spec fn mul_raw(a: int, b: int, d: nat) -> int {
    trunc_div(a * b, pow10(d))
}

/// The raw quotient of two raw integers at scale `d`, rounded toward zero.
pub open spec fn div_raw(a: int, b: int, d: nat) -> int
    recommends
        b != 0,
{
    trunc_div(a * pow10(d), b)
}

/// `v` divided by `m`, rounded away from zero whenever the division leaves
/// a remainder.
pub open spec fn div_away_from_zero(v: int, m: int) -> int
    recommends
        m > 0,
{
    if trunc_rem(v, m) == 0 {
        trunc_div(v, m)
    } else if v < 0 {
        trunc_div(v, m) - 1
    } else {
        trunc_div(v, m) + 1
    }
}

/// The raw integer at scale `to` of the raw integer `v` at scale `from`.
/// Widening is exact. Narrowing rounds away from zero when a discarded digit
/// is not zero.
pub open spec fn rescaled(v: int, from: nat, to: nat) -> int {
    if from <= to {
        v * pow10((to - from) as nat)
    } else {
        div_away_from_zero(v, pow10((from - to) as nat))
    }
}

/// Whether the integer `n` is below the decimal with raw integer `raw` at
/// scale `d`.
pub open spec fn int_below_dec(n: int, raw: int, d: nat) -> bool {
    scaled(n, d) < raw
}

/// Whether the decimal with raw integer `raw` at scale `d` is above the
/// integer `n`.
pub open spec fn dec_above_int(raw: int, n: int, d: nat) -> bool {
    raw > scaled(n, d)
}

/// Whether the integer `n` is above the decimal with raw integer `raw` at
/// scale `d`.
pub open spec fn int_above_dec(n: int, raw: int, d: nat) -> bool {
    scaled(n, d) > raw
}

/// Whether the decimal with raw integer `raw` at scale `d` is below the
/// integer `n`.
pub open spec fn dec_below_int(raw: int, n: int, d: nat) -> bool {
    raw < scaled(n, d)
}

/// Whether the integer `n` equals the decimal with raw integer `raw` at
/// scale `d`.
pub open spec fn int_equals_dec(n: int, raw: int, d: nat) -> bool {
    scaled(n, d) == raw
}

/// Whether the decimal with raw integer `raw` at scale `d` equals the
/// integer `n`.
pub open spec fn dec_equals_int(raw: int, n: int, d: nat) -> bool {
    raw == scaled(n, d)
}

/// A comparison of an integer with a decimal gives the same answer from
/// either side: `n < d` exactly when `d > n`, `n > d` exactly when `d < n`,
/// and `n == d` exactly when `d == n`.
pub proof fn lemma_comparison_symmetry(n: int, raw: int, d: nat)
    ensures
        int_below_dec(n, raw, d) == dec_above_int(raw, n, d),
        int_above_dec(n, raw, d) == dec_below_int(raw, n, d),
        int_equals_dec(n, raw, d) == dec_equals_int(raw, n, d),
{
}

/// The binary form of a decimal is that of its raw integer, whatever the
/// scale: two decimals with the same raw integer encode alike, and as that
/// integer does.
pub proof fn lemma_encoding_ignores_scale<const D1: usize, const D2: usize>(
    a: SafeDec<D1>,
    b: SafeDec<D2>,
    raw: SafeInt,
)
    requires
        a@ == raw@,
        b@ == raw@,
    ensures
        encode_spec(a@) == encode_spec(raw@),
        encode_spec(a@) == encode_spec(b@),
{
}

/// Zero is the identity of addition at a fixed scale: where `left` is what
/// `add` gives for `a` and zero, and `right` what it gives for zero and `a`,
/// both equal `a`.
pub proof fn lemma_add_identity<const D: usize>(
    a: SafeDec<D>,
    zero: SafeDec<D>,
    left: SafeDec<D>,
    right: SafeDec<D>,
)
    requires
        zero@ == 0,
        left@ == a@ + zero@,
        right@ == zero@ + a@,
    ensures
        left.eq_spec(&a),
        right.eq_spec(&a),
{
}

/// Addition is associative at a fixed scale: where `ab` is what `add` gives
/// for `a` and `b`, `bc` what it gives for `b` and `c`, `left` what it gives
/// for `ab` and `c`, and `right` what it gives for `a` and `bc`, then `left`
/// equals `right`.
pub proof fn lemma_add_associative<const D: usize>(
    a: SafeDec<D>,
    b: SafeDec<D>,
    c: SafeDec<D>,
    ab: SafeDec<D>,
    bc: SafeDec<D>,
    left: SafeDec<D>,
    right: SafeDec<D>,
)
    requires
        ab@ == a@ + b@,
        bc@ == b@ + c@,
        left@ == ab@ + c@,
        right@ == a@ + bc@,
    ensures
        left.eq_spec(&right),
{
}

/// Widening and then narrowing back gives the decimal that one started
/// from.
pub proof fn lemma_rescale_back(v: int, from: nat, to: nat)
    requires
        from <= to,
    ensures
        rescaled(rescaled(v, from, to), to, from) == v,
{
    let k = (to - from) as nat;
    lemma_pow10_positive(k);
    let p = pow10(k);
    let w = v * p;
    if from < to {
        let mv = crate::integer::magnitude_of(v) as int;
        let mw = crate::integer::magnitude_of(w) as int;
        assert(mw == mv * p) by (nonlinear_arith)
            requires
                w == v * p,
                p > 0,
                mv == (if v < 0 {
                    -v
                } else {
                    v
                }),
                mw == (if w < 0 {
                    -w
                } else {
                    w
                }),
        ;
        assert(mv >= 0);
        lemma_div_by_multiple(mv, p);
        lemma_mod_multiples_basic(mv, p);
        assert((w < 0) == (v < 0)) by (nonlinear_arith)
            requires
                w == v * p,
                p > 0,
        ;
    } else {
        reveal(pow);
        assert(p == 1);
    }
}

/// A decimal with `D` fractional digits. Its view is the raw integer: the
/// number it stands for is the view divided by `10^D`.
#[derive(Debug, Hash)]
pub struct SafeDec<const D: usize> {
    raw: SafeInt,
}

impl<const D: usize> View for SafeDec<D> {
    type V = int;

    closed spec fn view(&self) -> int {
        self.raw@
    }
}

impl<const D: usize> SafeDec<D> {
    /// The representation invariant: the raw integer is well formed and the
    /// scale lies within both ceilings.
    pub closed spec fn wf(&self) -> bool {
        self.raw.wf() && valid_scale(D as nat)
    }

    /// Whether the scale lies within both ceilings.
    pub open spec fn scale_in_range() -> bool {
        valid_scale(D as nat)
    }

    /// The raw integer that stands for the native integer `n` at this scale.
    pub open spec fn raw_of_native(n: i64) -> int {
        scaled(n as int, D as nat)
    }

    /// `10^D`.
    fn unit() -> (r: SafeInt)
        requires
            valid_scale(D as nat),
        ensures
            r.wf(),
            r@ == pow10(D as nat),
            r@ > 0,
    {
        proof {
            lemma_pow10_positive(D as nat);
        }
        SafeInt::from_u64(10).pow(D as u32)
    }

    /// Zero.
    pub fn zero() -> (r: SafeDec<D>)
        requires
            valid_scale(D as nat),
        ensures
            r.wf(),
            r@ == 0,
    {
        SafeDec { raw: SafeInt::zero() }
    }

    /// The decimal whose raw integer is `raw`: the number `raw / 10^D`.
    pub fn from_raw(raw: SafeInt) -> (r: SafeDec<D>)
        requires
            raw.wf(),
            valid_scale(D as nat),
        ensures
            r.wf(),
            r@ == raw@,
    {
        SafeDec { raw }
    }

    /// The raw integer.
    pub fn raw(&self) -> (r: &SafeInt)
        requires
            self.wf(),
        ensures
            r.wf(),
            r@ == self@,
    {
        &self.raw
    }

    /// The raw integer that stands for the integer `other` at this scale.
    pub fn scale_up(other: &SafeInt) -> (r: SafeInt)
        requires
            other.wf(),
            valid_scale(D as nat),
        ensures
            r.wf(),
            r@ == scaled(other@, D as nat),
    {
        other.mul(&Self::unit())
    }

    /// The decimal that equals the integer `n`.
    pub fn from_int(n: &SafeInt) -> (r: SafeDec<D>)
        requires
            n.wf(),
            valid_scale(D as nat),
        ensures
            r.wf(),
            r@ == scaled(n@, D as nat),
    {
        SafeDec { raw: Self::scale_up(n) }
    }

    /// The decimal of the same number at another scale. Going to more
    /// digits is exact; going to fewer rounds away from zero when a
    /// discarded digit is not zero.
    pub fn from_other_scale<const D2: usize>(other: &SafeDec<D2>) -> (r: SafeDec<D>)
        requires
            other.wf(),
            valid_scale(D as nat),
        ensures
            r.wf(),
            r@ == rescaled(other@, D2 as nat, D as nat),
    {
        if D2 <= D {
            let factor = SafeInt::from_u64(10).pow((D - D2) as u32);
            SafeDec { raw: other.raw.mul(&factor) }
        } else {
            let factor = SafeInt::from_u64(10).pow((D2 - D) as u32);
            proof {
                lemma_pow10_positive((D2 - D) as nat);
            }
            let q = other.raw.div(&factor);
            let m = other.raw.rem(&factor);
            match (q, m) {
                (Some(q), Some(m)) => {
                    if m.is_zero() {
                        SafeDec { raw: q }
                    } else if other.raw.is_negative() {
                        SafeDec { raw: q.sub(&SafeInt::from_u64(1)) }
                    } else {
                        SafeDec { raw: q.add(&SafeInt::from_u64(1)) }
                    }
                },
                _ => SafeDec { raw: SafeInt::zero() },
            }
        }
    }

    /// The value with its sign reversed.
    pub fn neg(&self) -> (r: SafeDec<D>)
        requires
            self.wf(),
        ensures
            r.wf(),
            r@ == -self@,
    {
        SafeDec { raw: self.raw.neg() }
    }

    /// The sum: the raw integers are added as they are.
    pub fn add(&self, other: &SafeDec<D>) -> (r: SafeDec<D>)
        requires
            self.wf(),
            other.wf(),
        ensures
            r.wf(),
            r@ == self@ + other@,
    {
        SafeDec { raw: self.raw.add(&other.raw) }
    }

    /// The difference: the raw integers are subtracted as they are.
    pub fn sub(&self, other: &SafeDec<D>) -> (r: SafeDec<D>)
        requires
            self.wf(),
            other.wf(),
        ensures
            r.wf(),
            r@ == self@ - other@,
    {
        SafeDec { raw: self.raw.sub(&other.raw) }
    }

    /// The product, with the digits beyond the scale cut off toward zero.
    pub fn mul(&self, other: &SafeDec<D>) -> (r: SafeDec<D>)
        requires
            self.wf(),
            other.wf(),
        ensures
            r.wf(),
            r@ == mul_raw(self@, other@, D as nat),
    {
        let product = self.raw.mul(&other.raw);
        match product.div(&Self::unit()) {
            Some(q) => SafeDec { raw: q },
            None => SafeDec { raw: SafeInt::zero() },
        }
    }

    /// The quotient rounded toward zero at this scale, or `None` when
    /// `other` is zero.
    pub fn div(&self, other: &SafeDec<D>) -> (r: Option<SafeDec<D>>)
        requires
            self.wf(),
            other.wf(),
        ensures
            r is Some <==> other@ != 0,
            r matches Some(q) ==> q.wf() && q@ == div_raw(self@, other@, D as nat),
    {
        let dividend = Self::scale_up(&self.raw);
        match dividend.div(&other.raw) {
            Some(q) => Some(SafeDec { raw: q }),
            None => None,
        }
    }

    /// The sum with an integer, which counts as `n.000…`.
    pub fn add_int(&self, n: &SafeInt) -> (r: SafeDec<D>)
        requires
            self.wf(),
            n.wf(),
        ensures
            r.wf(),
            r@ == self@ + scaled(n@, D as nat),
    {
        SafeDec { raw: self.raw.add(&Self::scale_up(n)) }
    }

    /// The difference with an integer, which counts as `n.000…`.
    pub fn sub_int(&self, n: &SafeInt) -> (r: SafeDec<D>)
        requires
            self.wf(),
            n.wf(),
        ensures
            r.wf(),
            r@ == self@ - scaled(n@, D as nat),
    {
        SafeDec { raw: self.raw.sub(&Self::scale_up(n)) }
    }

    /// The product with an integer, which counts as `n.000…`.
    pub fn mul_int(&self, n: &SafeInt) -> (r: SafeDec<D>)
        requires
            self.wf(),
            n.wf(),
        ensures
            r.wf(),
            r@ == mul_raw(self@, scaled(n@, D as nat), D as nat),
    {
        self.mul(&Self::from_int(n))
    }

    /// The quotient by an integer, which counts as `n.000…`; `None` when
    /// `n` is zero.
    pub fn div_int(&self, n: &SafeInt) -> (r: Option<SafeDec<D>>)
        requires
            self.wf(),
            n.wf(),
        ensures
            r is Some <==> n@ != 0,
            r matches Some(q) ==> q.wf() && q@ == div_raw(
                self@,
                scaled(n@, D as nat),
                D as nat,
            ),
    {
        proof {
            lemma_pow10_positive(D as nat);
            assert(n@ != 0 <==> n@ * pow10(D as nat) != 0) by (nonlinear_arith)
                requires
                    pow10(D as nat) > 0,
            ;
        }
        self.div(&Self::from_int(n))
    }

    /// Whether the two decimals are equal.
    pub fn equals(&self, other: &SafeDec<D>) -> (r: bool)
        ensures
            r == (self@ == other@),
    {
        self.raw.equals(&other.raw)
    }

    /// Whether `self` is strictly below `other`.
    pub fn less_than(&self, other: &SafeDec<D>) -> (r: bool)
        ensures
            r == (self@ < other@),
    {
        self.raw.less_than(&other.raw)
    }

    /// Whether `self` is strictly above `other`.
    pub fn greater_than(&self, other: &SafeDec<D>) -> (r: bool)
        ensures
            r == (self@ > other@),
    {
        other.raw.less_than(&self.raw)
    }

    /// Whether the decimal equals the integer `n`, taken at this scale.
    pub fn equals_int(&self, n: &SafeInt) -> (r: bool)
        requires
            self.wf(),
            n.wf(),
        ensures
            r == (self@ == scaled(n@, D as nat)),
    {
        self.raw.equals(&Self::scale_up(n))
    }

    /// Whether the decimal is strictly below the integer `n`, taken at
    /// this scale.
    pub fn less_than_int(&self, n: &SafeInt) -> (r: bool)
        requires
            self.wf(),
            n.wf(),
        ensures
            r == (self@ < scaled(n@, D as nat)),
    {
        self.raw.less_than(&Self::scale_up(n))
    }

    /// Whether the decimal is strictly above the integer `n`, taken at
    /// this scale.
    pub fn greater_than_int(&self, n: &SafeInt) -> (r: bool)
        requires
            self.wf(),
            n.wf(),
        ensures
            r == (self@ > scaled(n@, D as nat)),
    {
        Self::scale_up(n).less_than(&self.raw)
    }

    /// Whether the integer `n`, taken at this scale, equals `value`.
    pub fn int_equals(n: &SafeInt, value: &SafeDec<D>) -> (r: bool)
        requires
            n.wf(),
            value.wf(),
        ensures
            r == int_equals_dec(n@, value@, D as nat),
    {
        Self::scale_up(n).equals(&value.raw)
    }

    /// Whether the integer `n`, taken at this scale, is strictly below
    /// `value`.
    pub fn int_less_than(n: &SafeInt, value: &SafeDec<D>) -> (r: bool)
        requires
            n.wf(),
            value.wf(),
        ensures
            r == int_below_dec(n@, value@, D as nat),
    {
        Self::scale_up(n).less_than(&value.raw)
    }

    /// Whether the integer `n`, taken at this scale, is strictly above
    /// `value`.
    pub fn int_greater_than(n: &SafeInt, value: &SafeDec<D>) -> (r: bool)
        requires
            n.wf(),
            value.wf(),
        ensures
            r == int_above_dec(n@, value@, D as nat),
    {
        value.raw.less_than(&Self::scale_up(n))
    }

    /// Whether the decimal equals the native integer `n`.
    pub fn equals_native(&self, n: i128) -> (r: bool)
        requires
            self.wf(),
        ensures
            r == dec_equals_int(self@, n as int, D as nat),
    {
        self.equals_int(&SafeInt::from_i128(n))
    }

    /// Whether the decimal is strictly below the native integer `n`.
    pub fn less_than_native(&self, n: i128) -> (r: bool)
        requires
            self.wf(),
        ensures
            r == dec_below_int(self@, n as int, D as nat),
    {
        self.less_than_int(&SafeInt::from_i128(n))
    }

    /// Whether the decimal is strictly above the native integer `n`.
    pub fn greater_than_native(&self, n: i128) -> (r: bool)
        requires
            self.wf(),
        ensures
            r == dec_above_int(self@, n as int, D as nat),
    {
        self.greater_than_int(&SafeInt::from_i128(n))
    }

    /// Whether the native integer `n` equals `value`.
    pub fn native_equals(n: i128, value: &SafeDec<D>) -> (r: bool)
        requires
            value.wf(),
        ensures
            r == int_equals_dec(n as int, value@, D as nat),
    {
        Self::int_equals(&SafeInt::from_i128(n), value)
    }

    /// Whether the native integer `n` is strictly below `value`.
    pub fn native_less_than(n: i128, value: &SafeDec<D>) -> (r: bool)
        requires
            value.wf(),
        ensures
            r == int_below_dec(n as int, value@, D as nat),
    {
        Self::int_less_than(&SafeInt::from_i128(n), value)
    }

    /// Whether the native integer `n` is strictly above `value`.
    pub fn native_greater_than(n: i128, value: &SafeDec<D>) -> (r: bool)
        requires
            value.wf(),
        ensures
            r == int_above_dec(n as int, value@, D as nat),
    {
        Self::int_greater_than(&SafeInt::from_i128(n), value)
    }

    /// Parses a literal: an optional sign, digits and, optionally, a point
    /// and more digits. Fraction digits beyond the scale are cut off.
    pub fn parse(text: &[u8]) -> (r: Result<SafeDec<D>, ParseError>)
        requires
            valid_scale(D as nat),
        ensures
            match parse_spec(text@, D as nat) {
                Ok(v) => r matches Ok(value) && value.wf() && value@ == v,
                Err(e) => r matches Err(x) && x == e,
            },
    {
        match parse_decimal(text, D) {
            Ok(raw) => Ok(SafeDec { raw }),
            Err(e) => Err(e),
        }
    }

    /// Parses a literal given as a string: see `parse`.
    pub fn from_str(s: &str) -> (r: Result<SafeDec<D>, ParseError>)
        requires
            valid_scale(D as nat),
        ensures
            match parse_spec(s.spec_bytes(), D as nat) {
                Ok(v) => r matches Ok(value) && value.wf() && value@ == v,
                Err(e) => r matches Err(x) && x == e,
            },
    {
        Self::parse(s.as_bytes())
    }

    /// The text of the decimal as ASCII bytes: a minus sign where it is
    /// negative, the integer part, and for a positive scale a point and
    /// exactly `D` fraction digits.
    pub fn to_text(&self) -> (r: Vec<u8>)
        requires
            self.wf(),
        ensures
            r@ == text_of(self@, D as nat),
    {
        format_decimal(&self.raw, D)
    }

    /// The text of the decimal as a string: see `to_text`.
    pub fn to_string(&self) -> (r: String)
        requires
            self.wf(),
        ensures
            r@ == text_of(self@, D as nat).map_values(|b: u8| b as char),
    {
        let bytes = self.to_text();
        proof {
            lemma_text_is_ascii(self@, D as nat);
        }
        ascii_string(bytes)
    }

    /// The binary form, which is that of the raw integer: the scale is not
    /// written.
    pub fn encode(&self) -> (r: Vec<u8>)
        requires
            self.wf(),
        ensures
            r@ == encode_spec(self@),
    {
        encode(&self.raw)
    }

    /// Decodes the raw integer at the start of `bytes` and reads it at this
    /// scale. Returns the decimal with the number of bytes that it took.
    pub fn decode(bytes: &[u8]) -> (r: Result<(SafeDec<D>, usize), DecodeError>)
        requires
            valid_scale(D as nat),
        ensures
            match decode_spec(bytes@) {
                Ok((v, n)) => r matches Ok((value, used)) && value.wf() && value@ == v && used
                    == n,
                Err(e) => r matches Err(x) && x == e,
            },
    {
        match decode(bytes) {
            Ok((raw, used)) => Ok((SafeDec { raw }, used)),
            Err(e) => Err(e),
        }
    }
}

impl<const D: usize> Clone for SafeDec<D> {
    /// A copy that denotes the same decimal.
    fn clone(&self) -> (r: SafeDec<D>)
        ensures
            r.wf() == self.wf(),
            r@ == self@,
    {
        SafeDec { raw: self.raw.clone() }
    }
}

impl<const D: usize> Default for SafeDec<D> {
    /// Zero.
    fn default() -> (r: SafeDec<D>)
        ensures
            r.wf() == valid_scale(D as nat),
            r@ == 0,
    {
        SafeDec { raw: SafeInt::zero() }
    }
}

impl<const D: usize> PartialEq for SafeDec<D> {
    /// Whether the two decimals denote the same number.
    fn eq(&self, other: &SafeDec<D>) -> (r: bool) {
        self.raw.equals(&other.raw)
    }
}

impl<const D: usize> Eq for SafeDec<D> {

}

impl<const D: usize> vstd::std_specs::cmp::PartialEqSpecImpl for SafeDec<D> {
    open spec fn obeys_eq_spec() -> bool {
        true
    }

    open spec fn eq_spec(&self, other: &SafeDec<D>) -> bool {
        self@ == other@
    }
}

impl<const D: usize> PartialOrd for SafeDec<D> {
    /// The order of the numbers that the two decimals denote.
    fn partial_cmp(&self, other: &SafeDec<D>) -> (r: Option<Ordering>) {
        if self.raw.less_than(&other.raw) {
            Some(Ordering::Less)
        } else if other.raw.less_than(&self.raw) {
            Some(Ordering::Greater)
        } else {
            Some(Ordering::Equal)
        }
    }
}

impl<const D: usize> vstd::std_specs::cmp::PartialOrdSpecImpl for SafeDec<D> {
    open spec fn obeys_partial_cmp_spec() -> bool {
        true
    }

    open spec fn partial_cmp_spec(&self, other: &SafeDec<D>) -> Option<Ordering> {
        if self@ < other@ {
            Some(Ordering::Less)
        } else if self@ > other@ {
            Some(Ordering::Greater)
        } else {
            Some(Ordering::Equal)
        }
    }
}

impl<const D: usize> core::ops::Neg for SafeDec<D> {
    type Output = SafeDec<D>;

    /// The value with its sign reversed.
    fn neg(self) -> (r: SafeDec<D>)
        ensures
            r.wf(),
            r@ == -self@,
    {
        SafeDec::<D>::neg(&self)
    }
}

impl<const D: usize> vstd::std_specs::ops::NegSpecImpl for SafeDec<D> {
    /// No value is named for the result at this level: what the operator
    /// returns is stated by the `ensures` of `neg` itself.
    open spec fn obeys_neg_spec() -> bool {
        false
    }

    open spec fn neg_req(self) -> bool {
        self.wf()
    }

    open spec fn neg_spec(self) -> SafeDec<D> {
        arbitrary()
    }
}

impl<const D: usize> core::ops::Add for SafeDec<D> {
    type Output = SafeDec<D>;

    /// The sum.
    fn add(self, rhs: SafeDec<D>) -> (r: SafeDec<D>)
        ensures
            r.wf(),
            r@ == self@ + rhs@,
    {
        SafeDec::<D>::add(&self, &rhs)
    }
}

impl<const D: usize> vstd::std_specs::ops::AddSpecImpl for SafeDec<D> {
    /// No value is named for the result at this level: what the operator
    /// returns is stated by the `ensures` of `add` itself.
    open spec fn obeys_add_spec() -> bool {
        false
    }

    open spec fn add_req(self, rhs: SafeDec<D>) -> bool {
        self.wf() && rhs.wf()
    }

    open spec fn add_spec(self, rhs: SafeDec<D>) -> SafeDec<D> {
        arbitrary()
    }
}

impl<const D: usize> core::ops::Sub for SafeDec<D> {
    type Output = SafeDec<D>;

    /// The difference.
    fn sub(self, rhs: SafeDec<D>) -> (r: SafeDec<D>)
        ensures
            r.wf(),
            r@ == self@ - rhs@,
    {
        SafeDec::<D>::sub(&self, &rhs)
    }
}

impl<const D: usize> vstd::std_specs::ops::SubSpecImpl for SafeDec<D> {
    /// No value is named for the result at this level: what the operator
    /// returns is stated by the `ensures` of `sub` itself.
    open spec fn obeys_sub_spec() -> bool {
        false
    }

    open spec fn sub_req(self, rhs: SafeDec<D>) -> bool {
        self.wf() && rhs.wf()
    }

    open spec fn sub_spec(self, rhs: SafeDec<D>) -> SafeDec<D> {
        arbitrary()
    }
}

impl<const D: usize> core::ops::Mul for SafeDec<D> {
    type Output = SafeDec<D>;

    /// The product, cut off toward zero at the scale.
    fn mul(self, rhs: SafeDec<D>) -> (r: SafeDec<D>)
        ensures
            r.wf(),
            r@ == mul_raw(self@, rhs@, D as nat),
    {
        SafeDec::<D>::mul(&self, &rhs)
    }
}

impl<const D: usize> vstd::std_specs::ops::MulSpecImpl for SafeDec<D> {
    /// No value is named for the result at this level: what the operator
    /// returns is stated by the `ensures` of `mul` itself.
    open spec fn obeys_mul_spec() -> bool {
        false
    }

    open spec fn mul_req(self, rhs: SafeDec<D>) -> bool {
        self.wf() && rhs.wf()
    }

    open spec fn mul_spec(self, rhs: SafeDec<D>) -> SafeDec<D> {
        arbitrary()
    }
}

impl<const D: usize> core::ops::Div for SafeDec<D> {
    type Output = Option<SafeDec<D>>;

    /// The quotient rounded toward zero at the scale, or `None` when `rhs` is zero.
    fn div(self, rhs: SafeDec<D>) -> (r: Option<SafeDec<D>>)
        ensures
            r is Some <==> rhs@ != 0,
            r matches Some(q) ==> q.wf() && q@ == div_raw(self@, rhs@, D as nat),
    {
        SafeDec::<D>::div(&self, &rhs)
    }
}

impl<const D: usize> vstd::std_specs::ops::DivSpecImpl for SafeDec<D> {
    /// No value is named for the result at this level: what the operator
    /// returns is stated by the `ensures` of `div` itself.
    open spec fn obeys_div_spec() -> bool {
        false
    }

    open spec fn div_req(self, rhs: SafeDec<D>) -> bool {
        self.wf() && rhs.wf()
    }

    open spec fn div_spec(self, rhs: SafeDec<D>) -> Option<SafeDec<D>> {
        arbitrary()
    }
}

impl<const D: usize> PartialEq<i64> for SafeDec<D> {
    /// Whether the decimal equals the native integer `other`, taken at this
    /// scale. A decimal whose scale lies beyond the ceilings equals nothing.
    fn eq(&self, other: &i64) -> (r: bool) {
        !(D > MAX_FORMAT_SCALE || D > MAX_SCALE) && self.raw.equals(&Self::scale_up(&SafeInt::from(*other)))
    }
}

impl<const D: usize> vstd::std_specs::cmp::PartialEqSpecImpl<i64> for SafeDec<D> {
    open spec fn obeys_eq_spec() -> bool {
        true
    }

    open spec fn eq_spec(&self, other: &i64) -> bool {
        Self::scale_in_range() && self@ == Self::raw_of_native(*other)
    }
}

impl<const D: usize> PartialOrd<i64> for SafeDec<D> {
    /// The order of the decimal and the native integer `other`, taken at this
    /// scale. A decimal whose scale lies beyond the ceilings has no order.
    fn partial_cmp(&self, other: &i64) -> (r: Option<Ordering>) {
        if D > MAX_FORMAT_SCALE || D > MAX_SCALE {
            return None;
        }
        if self.raw.less_than(&Self::scale_up(&SafeInt::from(*other))) {
            Some(Ordering::Less)
        } else if Self::scale_up(&SafeInt::from(*other)).less_than(&self.raw) {
            Some(Ordering::Greater)
        } else {
            Some(Ordering::Equal)
        }
    }
}

impl<const D: usize> vstd::std_specs::cmp::PartialOrdSpecImpl<i64> for SafeDec<D> {
    open spec fn obeys_partial_cmp_spec() -> bool {
        true
    }

    open spec fn partial_cmp_spec(&self, other: &i64) -> Option<Ordering> {
        if !Self::scale_in_range() {
            None
        } else if self@ < Self::raw_of_native(*other) {
            Some(Ordering::Less)
        } else if self@ > Self::raw_of_native(*other) {
            Some(Ordering::Greater)
        } else {
            Some(Ordering::Equal)
        }
    }
}

impl<const D: usize> PartialEq<SafeDec<D>> for i64 {
    /// Whether the native integer, taken at the scale of `other`, equals it.
    /// A decimal whose scale lies beyond the ceilings equals nothing.
    fn eq(&self, other: &SafeDec<D>) -> (r: bool) {
        !(D > MAX_FORMAT_SCALE || D > MAX_SCALE) && SafeDec::<D>::scale_up(&SafeInt::from(*self)).equals(&other.raw)
    }
}

impl<const D: usize> vstd::std_specs::cmp::PartialEqSpecImpl<SafeDec<D>> for i64 {
    open spec fn obeys_eq_spec() -> bool {
        true
    }

    open spec fn eq_spec(&self, other: &SafeDec<D>) -> bool {
        SafeDec::<D>::scale_in_range() && SafeDec::<D>::raw_of_native(*self) == other@
    }
}

impl<const D: usize> PartialOrd<SafeDec<D>> for i64 {
    /// The order of the native integer, taken at the scale of `other`, and
    /// `other`. A decimal whose scale lies beyond the ceilings has no order.
    fn partial_cmp(&self, other: &SafeDec<D>) -> (r: Option<Ordering>) {
        if D > MAX_FORMAT_SCALE || D > MAX_SCALE {
            return None;
        }
        if SafeDec::<D>::scale_up(&SafeInt::from(*self)).less_than(&other.raw) {
            Some(Ordering::Less)
        } else if other.raw.less_than(&SafeDec::<D>::scale_up(&SafeInt::from(*self))) {
            Some(Ordering::Greater)
        } else {
            Some(Ordering::Equal)
        }
    }
}

impl<const D: usize> vstd::std_specs::cmp::PartialOrdSpecImpl<SafeDec<D>> for i64 {
    open spec fn obeys_partial_cmp_spec() -> bool {
        true
    }

    open spec fn partial_cmp_spec(&self, other: &SafeDec<D>) -> Option<Ordering> {
        if !SafeDec::<D>::scale_in_range() {
            None
        } else if SafeDec::<D>::raw_of_native(*self) < other@ {
            Some(Ordering::Less)
        } else if SafeDec::<D>::raw_of_native(*self) > other@ {
            Some(Ordering::Greater)
        } else {
            Some(Ordering::Equal)
        }
    }
}

/// A comparison of a native integer with a decimal gives the same answer
/// from either side: `n < d` exactly when `d > n`, `n > d` exactly when
/// `d < n`, and `n == d` exactly when `d == n`.
pub proof fn lemma_native_comparison_symmetry<const D: usize>(n: i64, d: SafeDec<D>)
    ensures
        (n.partial_cmp_spec(&d) == Some(Ordering::Less)) == (d.partial_cmp_spec(&n) == Some(
            Ordering::Greater,
        )),
        (n.partial_cmp_spec(&d) == Some(Ordering::Greater)) == (d.partial_cmp_spec(&n) == Some(
            Ordering::Less,
        )),
        n.eq_spec(&d) == d.eq_spec(&n),
{
}

impl<const D: usize> core::str::FromStr for SafeDec<D> {
    type Err = ParseError;

    /// Parses a literal as `SafeDec::from_str` does. A scale beyond the
    /// ceilings is refused before the text is looked at.
    fn from_str(s: &str) -> (r: Result<SafeDec<D>, ParseError>)
        ensures
            !valid_scale(D as nat) ==> (r matches Err(e) && e == (ParseError {
                position: 0,
                reason: ParseReason::ScaleTooLarge,
            })),
            valid_scale(D as nat) ==> match parse_spec(s.spec_bytes(), D as nat) {
                Ok(v) => r matches Ok(value) && value.wf() && value@ == v,
                Err(e) => r matches Err(x) && x == e,
            },
    {
        if D > MAX_FORMAT_SCALE || D > MAX_SCALE {
            Err(ParseError { position: 0, reason: ParseReason::ScaleTooLarge })
        } else {
            SafeDec::<D>::parse(s.as_bytes())
        }
    }
}

} // verus!
