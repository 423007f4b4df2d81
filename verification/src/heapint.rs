//! Magnitude storage: an unsigned number of any size, kept inline while it
//! fits in 120 bits and as a digit buffer otherwise.

use vstd::prelude::*;
use vstd::arithmetic::power::*;
use crate::digits::{
    le_value,
    le_bytes,
    lemma_value_of_bytes,
    lemma_bytes_of_value,
    lemma_value_bound,
    lemma_value_lower,
    lemma_value_drop_zero,
    lemma_pow256_values,
    lemma_pow256_monotone,
};
use crate::backend::{
    bytes_add,
    bytes_sub,
    bytes_mul,
    bytes_div,
    bytes_rem,
    bytes_pow,
    bytes_less,
};

verus! {

/// The first magnitude that no longer fits inline: `2^120`.
pub const INLINE_LIMIT: u128 = 0x1000000_00000000_00000000_00000000;

/// An unsigned magnitude.
///
/// `U120` holds a value below `2^120` without a buffer. `Ptr` owns a buffer
/// of base-256 digits, least significant first, for every larger value.
#[derive(Debug, Hash)]
pub enum HeapInt {
    U120(u128),
    Ptr { digits: Vec<u8> },
}

/// The base-256 digits of `v`, least significant first, without superfluous
/// zero digits.
pub fn u128_to_le_bytes(v: u128) -> (r: Vec<u8>)
    ensures
        r@ == le_bytes(v as nat),
{
    let mut out: Vec<u8> = Vec::new();
    let mut rest: u128 = v;
    while rest != 0
        invariant
            le_bytes(v as nat) == out@ + le_bytes(rest as nat),
        decreases rest,
    {
        let d: u8 = (rest % 256) as u8;
        proof {
            assert(le_bytes(rest as nat) == seq![d] + le_bytes((rest / 256) as nat));
            assert(out@.push(d) + le_bytes((rest / 256) as nat) =~= out@ + (seq![d] + le_bytes(
                (rest / 256) as nat,
            )));
        }
        out.push(d);
        rest = rest / 256;
    }
    assert(out@ + le_bytes(0) =~= out@);
    out
}

/// A copy of `v`.
fn copy_bytes(v: &Vec<u8>) -> (r: Vec<u8>)
    ensures
        r@ == v@,
{
    let mut out: Vec<u8> = Vec::new();
    let mut i: usize = 0;
    while i < v.len()
        invariant
            i <= v.len(),
            out@ == v@.take(i as int),
        decreases v.len() - i,
    {
        out.push(v[i]);
        i = i + 1;
        assert(out@ =~= v@.take(i as int));
    }
    assert(v@.take(v.len() as int) =~= v@);
    out
}

impl HeapInt {
    /// The representation invariant: an inline value is below `2^120`, and a
    /// buffer holds at least sixteen digits, the last of them non-zero. Each
    /// magnitude therefore has exactly one well-formed representation.
    pub open spec fn wf(&self) -> bool {
        match self {
            HeapInt::U120(v) => *v < INLINE_LIMIT,
            HeapInt::Ptr { digits } => digits@.len() >= 16 && digits@.last() != 0,
        }
    }

    /// The number that this magnitude denotes.
    pub open spec fn value(&self) -> nat {
        match self {
            HeapInt::U120(v) => *v as nat,
            HeapInt::Ptr { digits } => le_value(digits@),
        }
    }

    /// Whether the value is held inline.
    pub open spec fn inline(&self) -> bool {
        self is U120
    }

    /// A well-formed magnitude is inline exactly when it is below `2^120`.
    pub proof fn lemma_inline_iff_small(&self)
        requires
            self.wf(),
        ensures
            self.inline() <==> self.value() < INLINE_LIMIT,
    {
        match self {
            HeapInt::U120(_) => {},
            HeapInt::Ptr { digits } => {
                lemma_value_lower(digits@);
                lemma_pow256_monotone(15, (digits@.len() - 1) as nat);
                lemma_pow256_values();
            },
        }
    }

    /// Two well-formed magnitudes that denote the same number have the same
    /// representation.
    pub proof fn lemma_unique_representation(&self, other: &HeapInt)
        requires
            self.wf(),
            other.wf(),
            self.value() == other.value(),
        ensures
            self.inline() == other.inline(),
            self matches HeapInt::U120(a) ==> other matches HeapInt::U120(b) && a == b,
            self matches HeapInt::Ptr { digits: a } ==> other matches HeapInt::Ptr { digits: b }
                && a@ == b@,
    {
        self.lemma_inline_iff_small();
        other.lemma_inline_iff_small();
        match (self, other) {
            (HeapInt::Ptr { digits: a }, HeapInt::Ptr { digits: b }) => {
                lemma_bytes_of_value(a@);
                lemma_bytes_of_value(b@);
            },
            _ => {},
        }
    }

    /// The magnitude zero.
    pub fn zero() -> (r: HeapInt)
        ensures
            r.wf(),
            r.value() == 0,
            r.inline(),
    {
        HeapInt::U120(0)
    }

    /// The magnitude `v`, inline when `v` is below `2^120`.
    pub fn from_u128(v: u128) -> (r: HeapInt)
        ensures
            r.wf(),
            r.value() == v,
    {
        if v < INLINE_LIMIT {
            HeapInt::U120(v)
        } else {
            let bytes = u128_to_le_bytes(v);
            proof {
                lemma_value_of_bytes(v as nat);
            }
            HeapInt::from_le_bytes(bytes)
        }
    }

    /// The magnitude that the base-256 digits `bytes` denote, least
    /// significant first. Superfluous zero digits are dropped, and a value
    /// below `2^120` is stored inline.
    pub fn from_le_bytes(bytes: Vec<u8>) -> (r: HeapInt)
        ensures
            r.wf(),
            r.value() == le_value(bytes@),
    {
        let ghost orig = bytes@;
        let mut bytes = bytes;
        while bytes.len() > 0 && bytes[bytes.len() - 1] == 0
            invariant
                le_value(bytes@) == le_value(orig),
            decreases bytes.len(),
        {
            proof {
                lemma_value_drop_zero(bytes@);
            }
            bytes.pop();
        }
        if bytes.len() <= 15 {
            let n: usize = bytes.len();
            let mut acc: u128 = 0;
            let mut i: usize = n;
            proof {
                assert(bytes@.subrange(n as int, n as int) =~= Seq::<u8>::empty());
            }
            while i > 0
                invariant
                    n == bytes.len(),
                    n <= 15,
                    i <= n,
                    acc == le_value(bytes@.subrange(i as int, n as int)),
                decreases i,
            {
                proof {
                    let tail = bytes@.subrange(i as int, n as int);
                    let next = bytes@.subrange(i - 1, n as int);
                    assert(next.drop_first() =~= tail);
                    lemma_value_bound(tail);
                    lemma_pow256_monotone(tail.len(), 15);
                    lemma_pow256_values();
                }
                i = i - 1;
                acc = acc * 256 + bytes[i] as u128;
            }
            proof {
                assert(bytes@.subrange(0, n as int) =~= bytes@);
                lemma_value_bound(bytes@);
                lemma_pow256_monotone(n as nat, 15);
                lemma_pow256_values();
            }
            HeapInt::U120(acc)
        } else {
            HeapInt::Ptr { digits: bytes }
        }
    }

    /// The base-256 digits of the value, least significant first, without
    /// superfluous zero digits (none at all for zero).
    pub fn to_le_bytes(&self) -> (r: Vec<u8>)
        requires
            self.wf(),
        ensures
            r@ == le_bytes(self.value()),
    {
        match self {
            HeapInt::U120(v) => u128_to_le_bytes(*v),
            HeapInt::Ptr { digits } => {
                proof {
                    lemma_bytes_of_value(digits@);
                }
                copy_bytes(digits)
            },
        }
    }

    /// Whether the value is held inline, without a buffer.
    pub fn is_inline(&self) -> (r: bool)
        ensures
            r == self.inline(),
    {
        match self {
            HeapInt::U120(_) => true,
            HeapInt::Ptr { .. } => false,
        }
    }

    /// Whether the value is zero.
    pub fn is_zero(&self) -> (r: bool)
        ensures
            r == (self.value() == 0),
    {
        match self {
            HeapInt::U120(v) => *v == 0,
            HeapInt::Ptr { digits } => {
                let none: Vec<u8> = Vec::new();
                !bytes_less(&none, digits)
            },
        }
    }

    /// Digits that denote the value, as they are stored.
    fn stored_bytes(&self) -> (r: Vec<u8>)
        ensures
            le_value(r@) == self.value(),
    {
        match self {
            HeapInt::U120(v) => {
                proof {
                    lemma_value_of_bytes(*v as nat);
                }
                u128_to_le_bytes(*v)
            },
            HeapInt::Ptr { digits } => copy_bytes(digits),
        }
    }

    /// Whether the value is odd.
    pub fn is_odd(&self) -> (r: bool)
        requires
            self.wf(),
        ensures
            r == (self.value() % 2 == 1),
    {
        match self {
            HeapInt::U120(v) => *v % 2 == 1,
            HeapInt::Ptr { digits } => {
                let low: u8 = digits[0];
                assert((low as nat + 256 * le_value(digits@.drop_first())) % 2 == low as nat % 2)
                    by (nonlinear_arith);
                low % 2 == 1
            },
        }
    }

    /// The value as a `u128`, where it fits.
    pub fn to_u128(&self) -> (r: Option<u128>)
        requires
            self.wf(),
        ensures
            r is Some <==> self.value() <= u128::MAX,
            r matches Some(v) ==> v == self.value(),
    {
        match self {
            HeapInt::U120(v) => Some(*v),
            HeapInt::Ptr { digits } => {
                if digits.len() > 16 {
                    proof {
                        lemma_value_lower(digits@);
                        lemma_pow256_monotone(16, (digits@.len() - 1) as nat);
                        lemma_pow256_values();
                    }
                    None
                } else {
                    let mut acc: u128 = 0;
                    let mut i: usize = 16;
                    proof {
                        assert(digits@.subrange(16, 16) =~= Seq::<u8>::empty());
                    }
                    while i > 0
                        invariant
                            digits.len() == 16,
                            i <= 16,
                            acc == le_value(digits@.subrange(i as int, 16)),
                        decreases i,
                    {
                        proof {
                            let tail = digits@.subrange(i as int, 16);
                            let next = digits@.subrange(i - 1, 16);
                            assert(next.drop_first() =~= tail);
                            lemma_value_bound(tail);
                            lemma_pow256_monotone(tail.len(), 15);
                            lemma_pow256_values();
                        }
                        i = i - 1;
                        acc = acc * 256 + digits[i] as u128;
                    }
                    proof {
                        assert(digits@.subrange(0, 16) =~= digits@);
                    }
                    Some(acc)
                }
            },
        }
    }

    /// Whether this magnitude is strictly smaller than `other`.
    pub fn less(&self, other: &HeapInt) -> (r: bool)
        ensures
            r == (self.value() < other.value()),
    {
        match (self, other) {
            (HeapInt::U120(a), HeapInt::U120(b)) => *a < *b,
            (HeapInt::Ptr { digits: a }, HeapInt::Ptr { digits: b }) => bytes_less(a, b),
            _ => bytes_less(&self.stored_bytes(), &other.stored_bytes()),
        }
    }

    /// Whether the two magnitudes denote the same number.
    pub fn same(&self, other: &HeapInt) -> (r: bool)
        ensures
            r == (self.value() == other.value()),
    {
        !self.less(other) && !other.less(self)
    }

    /// The sum. Two inline operands are added without a buffer; the result
    /// moves to a buffer only when it reaches `2^120`.
    pub fn add(&self, other: &HeapInt) -> (r: HeapInt)
        requires
            self.wf(),
            other.wf(),
        ensures
            r.wf(),
            r.value() == self.value() + other.value(),
    {
        match (self, other) {
            (HeapInt::U120(a), HeapInt::U120(b)) => HeapInt::from_u128(*a + *b),
            _ => {
                let x = self.to_le_bytes();
                let y = other.to_le_bytes();
                proof {
                    lemma_value_of_bytes(self.value());
                    lemma_value_of_bytes(other.value());
                }
                HeapInt::from_le_bytes(bytes_add(&x, &y))
            },
        }
    }

    /// The difference, or `None` when `other` is the larger. A result below
    /// `2^120` is stored inline again.
    pub fn checked_sub(&self, other: &HeapInt) -> (r: Option<HeapInt>)
        requires
            self.wf(),
            other.wf(),
        ensures
            r is Some <==> self.value() >= other.value(),
            r matches Some(d) ==> d.wf() && d.value() == self.value() - other.value(),
    {
        if self.less(other) {
            return None;
        }
        match (self, other) {
            (HeapInt::U120(a), HeapInt::U120(b)) => Some(HeapInt::U120(*a - *b)),
            _ => {
                let x = self.to_le_bytes();
                let y = other.to_le_bytes();
                proof {
                    lemma_value_of_bytes(self.value());
                    lemma_value_of_bytes(other.value());
                }
                Some(HeapInt::from_le_bytes(bytes_sub(&x, &y)))
            },
        }
    }

    /// The product. Two operands below `2^64` are multiplied without a
    /// buffer.
    pub fn mul(&self, other: &HeapInt) -> (r: HeapInt)
        requires
            self.wf(),
            other.wf(),
        ensures
            r.wf(),
            r.value() == self.value() * other.value(),
    {
        match (self, other) {
            (HeapInt::U120(a), HeapInt::U120(b)) if *a <= 0xffff_ffff_ffff_ffff && *b
                <= 0xffff_ffff_ffff_ffff => {
                assert(*a * *b <= 0xffff_ffff_ffff_ffff * 0xffff_ffff_ffff_ffff) by (nonlinear_arith)
                    requires
                        *a <= 0xffff_ffff_ffff_ffff,
                        *b <= 0xffff_ffff_ffff_ffff,
                ;
                HeapInt::from_u128(*a * *b)
            },
            _ => {
                let x = self.to_le_bytes();
                let y = other.to_le_bytes();
                proof {
                    lemma_value_of_bytes(self.value());
                    lemma_value_of_bytes(other.value());
                }
                HeapInt::from_le_bytes(bytes_mul(&x, &y))
            },
        }
    }

    /// Quotient and remainder of the division rounded down, or `None` when
    /// `other` is zero.
    pub fn checked_div_rem(&self, other: &HeapInt) -> (r: Option<(HeapInt, HeapInt)>)
        requires
            self.wf(),
            other.wf(),
        ensures
            r is Some <==> other.value() != 0,
            r matches Some((q, m)) ==> q.wf() && m.wf() && q.value() == self.value()
                / other.value() && m.value() == self.value() % other.value(),
    {
        if other.is_zero() {
            return None;
        }
        match (self, other) {
            (HeapInt::U120(a), HeapInt::U120(b)) => Some(
                (HeapInt::U120(*a / *b), HeapInt::U120(*a % *b)),
            ),
            _ => {
                let x = self.to_le_bytes();
                let y = other.to_le_bytes();
                proof {
                    lemma_value_of_bytes(self.value());
                    lemma_value_of_bytes(other.value());
                }
                let q = HeapInt::from_le_bytes(bytes_div(&x, &y));
                let m = HeapInt::from_le_bytes(bytes_rem(&x, &y));
                Some((q, m))
            },
        }
    }

    /// The value raised to `exponent`; anything to the power zero is one.
    pub fn pow(&self, exponent: u32) -> (r: HeapInt)
        requires
            self.wf(),
        ensures
            r.wf(),
            r.value() == pow(self.value() as int, exponent as nat),
    {
        let x = self.to_le_bytes();
        proof {
            lemma_value_of_bytes(self.value());
        }
        HeapInt::from_le_bytes(bytes_pow(&x, exponent))
    }
}

impl Clone for HeapInt {
    /// A copy with the same representation.
    fn clone(&self) -> (r: HeapInt)
        ensures
            r.wf() == self.wf(),
            r.value() == self.value(),
            r.inline() == self.inline(),
    {
        match self {
            HeapInt::U120(v) => HeapInt::U120(*v),
            HeapInt::Ptr { digits } => HeapInt::Ptr { digits: copy_bytes(digits) },
        }
    }
}

impl PartialEq for HeapInt {
    /// Whether the two magnitudes denote the same number.
    fn eq(&self, other: &HeapInt) -> (r: bool) {
        self.same(other)
    }
}

impl Eq for HeapInt {

}

impl vstd::std_specs::cmp::PartialEqSpecImpl for HeapInt {
    open spec fn obeys_eq_spec() -> bool {
        true
    }

    open spec fn eq_spec(&self, other: &HeapInt) -> bool {
        self.value() == other.value()
    }
}

} // verus!
