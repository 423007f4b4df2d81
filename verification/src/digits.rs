//! Little-endian base-256 digit sequences and the natural numbers they denote.

use vstd::prelude::*;
use vstd::arithmetic::power::*;

verus! {

/// The number written by the base-256 digits `s`, least significant first.
pub open spec fn le_value(s: Seq<u8>) -> nat
    decreases s.len(),
{
    if s.len() == 0 {
        0
    } else {
        s[0] as nat + 256 * le_value(s.drop_first())
    }
}

/// The shortest little-endian digit sequence that denotes `n`; empty for zero.
pub open spec fn le_bytes(n: nat) -> Seq<u8>
    decreases n,
{
    if n == 0 {
        Seq::empty()
    } else {
        seq![(n % 256) as u8] + le_bytes(n / 256)
    }
}

/// A digit sequence without a superfluous most-significant zero digit.
pub open spec fn canonical(s: Seq<u8>) -> bool {
    s.len() == 0 || s.last() != 0
}

/// `256^k`.
pub open spec fn pow256(k: nat) -> nat {
    pow(256, k) as nat
}

pub proof fn lemma_pow256_step(k: nat)
    ensures
        pow256(0) == 1,
        pow256(k + 1) == 256 * pow256(k),
        pow256(k) > 0,
{
    reveal(pow);
    lemma_pow_positive(256, k);
    lemma_pow_positive(256, k + 1);
}

/// Decoding the shortest digits of `n` gives `n` back.
pub proof fn lemma_value_of_bytes(n: nat)
    ensures
        le_value(le_bytes(n)) == n,
    decreases n,
{
    if n != 0 {
        let s = le_bytes(n);
        lemma_value_of_bytes(n / 256);
        assert(s.drop_first() =~= le_bytes(n / 256));
        assert(s[0] == (n % 256) as u8);
    }
}

/// The shortest digits of `n` are canonical.
pub proof fn lemma_bytes_canonical(n: nat)
    ensures
        canonical(le_bytes(n)),
    decreases n,
{
    if n != 0 {
        lemma_bytes_canonical(n / 256);
        let rest = le_bytes(n / 256);
        let s = le_bytes(n);
        if rest.len() == 0 {
            assert(n / 256 == 0) by {
                if n / 256 != 0 {
                    assert(le_bytes(n / 256).len() > 0);
                }
            }
            assert(s.last() == (n % 256) as u8);
        } else {
            assert(s.last() == rest.last());
        }
    }
}

/// A canonical digit sequence is the shortest one for its value.
pub proof fn lemma_bytes_of_value(s: Seq<u8>)
    requires
        canonical(s),
    ensures
        le_bytes(le_value(s)) == s,
    decreases s.len(),
{
    if s.len() > 0 {
        let rest = s.drop_first();
        let n = le_value(s);
        if rest.len() > 0 {
            assert(rest.last() == s.last());
        }
        lemma_bytes_of_value(rest);
        lemma_canonical_positive(s);
        assert(n % 256 == s[0] as nat && n / 256 == le_value(rest)) by {
            lemma_digit_split(s[0] as nat, le_value(rest));
        }
        assert(le_bytes(n) =~= s);
    }
}

proof fn lemma_digit_split(d: nat, q: nat)
    requires
        d < 256,
    ensures
        (d + 256 * q) % 256 == d,
        (d + 256 * q) / 256 == q,
{
    assert((d + 256 * q) % 256 == d && (d + 256 * q) / 256 == q) by (nonlinear_arith)
        requires
            d < 256,
    ;
}

/// A non-empty canonical digit sequence denotes a positive number.
pub proof fn lemma_canonical_positive(s: Seq<u8>)
    requires
        s.len() > 0,
        s.last() != 0,
    ensures
        le_value(s) > 0,
    decreases s.len(),
{
    let rest = s.drop_first();
    if rest.len() > 0 {
        assert(rest.last() == s.last());
        lemma_canonical_positive(rest);
    }
}

/// Appending a most-significant digit adds that digit times `256^len`.
pub proof fn lemma_value_push(s: Seq<u8>, b: u8)
    ensures
        le_value(s.push(b)) == le_value(s) + b as nat * pow256(s.len()),
    decreases s.len(),
{
    lemma_pow256_step(s.len());
    if s.len() == 0 {
        assert(s.push(b).drop_first() =~= Seq::<u8>::empty());
        assert(le_value(s.push(b).drop_first()) == 0);
    } else {
        let rest = s.drop_first();
        lemma_value_push(rest, b);
        lemma_pow256_step(rest.len());
        assert(s.push(b).drop_first() =~= rest.push(b));
        assert(256 * (b as nat * pow256(rest.len())) == b as nat * pow256(s.len()))
            by (nonlinear_arith)
            requires
                pow256(s.len()) == 256 * pow256(rest.len()),
        ;
    }
}

/// `k` digits denote a number below `256^k`.
pub proof fn lemma_value_bound(s: Seq<u8>)
    ensures
        le_value(s) < pow256(s.len()),
    decreases s.len(),
{
    lemma_pow256_step(s.len());
    if s.len() > 0 {
        let rest = s.drop_first();
        lemma_value_bound(rest);
        lemma_pow256_step(rest.len());
    }
}

/// A non-zero most-significant digit at position `k - 1` makes the value at
/// least `256^(k-1)`.
pub proof fn lemma_value_lower(s: Seq<u8>)
    requires
        s.len() > 0,
        s.last() != 0,
    ensures
        le_value(s) >= pow256((s.len() - 1) as nat),
    decreases s.len(),
{
    lemma_pow256_step(0);
    let rest = s.drop_first();
    if rest.len() > 0 {
        assert(rest.last() == s.last());
        lemma_value_lower(rest);
        lemma_pow256_step((rest.len() - 1) as nat);
    }
}

/// A most-significant zero digit does not change the value.
pub proof fn lemma_value_drop_zero(s: Seq<u8>)
    requires
        s.len() > 0,
        s.last() == 0,
    ensures
        le_value(s.drop_last()) == le_value(s),
{
    lemma_value_push(s.drop_last(), 0);
    assert(s.drop_last().push(0) =~= s);
}

/// `256^15` is `2^120`, and `256^16` is `2^128`.
pub proof fn lemma_pow256_values()
    ensures
        pow256(15) == 0x1000000_00000000_00000000_00000000,
        pow256(16) == 0x1_00000000_00000000_00000000_00000000,
{
    lemma_pow256_step(0);
    lemma_pow256_step(1);
    lemma_pow256_step(2);
    lemma_pow256_step(3);
    lemma_pow256_step(4);
    lemma_pow256_step(5);
    lemma_pow256_step(6);
    lemma_pow256_step(7);
    lemma_pow256_step(8);
    lemma_pow256_step(9);
    lemma_pow256_step(10);
    lemma_pow256_step(11);
    lemma_pow256_step(12);
    lemma_pow256_step(13);
    lemma_pow256_step(14);
    lemma_pow256_step(15);
}

/// `256^k` grows with `k`.
pub proof fn lemma_pow256_monotone(j: nat, k: nat)
    requires
        j <= k,
    ensures
        pow256(j) <= pow256(k),
{
    lemma_pow_increases(256, j, k);
    lemma_pow_positive(256, j);
    lemma_pow_positive(256, k);
}

} // verus!
