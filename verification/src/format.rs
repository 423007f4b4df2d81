//! Decimal text: sign, integer digits, and exactly as many fraction digits
//! as the scale says.

use vstd::prelude::*;
use crate::heapint::HeapInt;
use crate::integer::{SafeInt, magnitude_of};
use crate::decimal::{pow10, valid_scale, lemma_pow10_positive};
use crate::parsing::{
    is_digit,
    digits_value,
    digits_end,
    fraction_value,
    parse_spec,
    parse_integer_spec,
    ParseError,
};
use vstd::arithmetic::power::pow;

verus! {

/// The ASCII digit for the last decimal digit of `n`.
pub open spec fn digit_char(n: nat) -> u8 {
    (48 + n % 10) as u8
}

/// The decimal digits of `n`, most significant first, without leading
/// zeros; `"0"` for zero.
pub open spec fn nat_digits(n: nat) -> Seq<u8>
    decreases n,
{
    if n < 10 {
        seq![digit_char(n)]
    } else {
        nat_digits(n / 10).push(digit_char(n))
    }
}

/// The last `k` decimal digits of `n`, most significant first, with leading
/// zeros where `n` is short.
pub open spec fn padded_digits(n: nat, k: nat) -> Seq<u8>
    decreases k,
{
    if k == 0 {
        Seq::empty()
    } else {
        padded_digits(n / 10, (k - 1) as nat).push(digit_char(n))
    }
}

/// The text of the raw integer `v` at scale `d`: a minus sign for a negative
/// value, the integer part, and for a positive scale a point and exactly `d`
/// fraction digits.
pub open spec fn text_of(v: int, d: nat) -> Seq<u8> {
    let m = magnitude_of(v);
    let unit = pow10(d) as nat;
    let sign = if v < 0 {
        seq![45u8]
    } else {
        Seq::empty()
    };
    let fraction = if d > 0 {
        seq![46u8] + padded_digits(m % unit, d)
    } else {
        Seq::empty()
    };
    sign + nat_digits(m / unit) + fraction
}

/// The digits of a number are at least one, all of them ASCII digits, and
/// they write that number.
pub proof fn lemma_nat_digits(n: nat)
    ensures
        nat_digits(n).len() >= 1,
        forall|i: int| 0 <= i < nat_digits(n).len() ==> is_digit(#[trigger] nat_digits(n)[i]),
        digits_value(nat_digits(n)) == n,
    decreases n,
{
    if n < 10 {
        let s = nat_digits(n);
        assert(s.drop_last() =~= Seq::<u8>::empty());
        assert(digits_value(s.drop_last()) == 0);
    } else {
        lemma_nat_digits(n / 10);
        let s = nat_digits(n);
        assert(s.drop_last() =~= nat_digits(n / 10));
    }
}

/// Padded digits are exactly `k`, all of them ASCII digits, and they write
/// the number where it is below `10^k`.
pub proof fn lemma_padded_digits(n: nat, k: nat)
    ensures
        padded_digits(n, k).len() == k,
        forall|i: int| 0 <= i < k ==> is_digit(#[trigger] padded_digits(n, k)[i]),
        n < pow10(k) ==> digits_value(padded_digits(n, k)) == n,
    decreases k,
{
    reveal(pow);
    if k > 0 {
        lemma_padded_digits(n / 10, (k - 1) as nat);
        let s = padded_digits(n, k);
        assert(s.drop_last() =~= padded_digits(n / 10, (k - 1) as nat));
        assert(pow10(k) == 10 * pow10((k - 1) as nat));
    }
}

/// Where every character from `from` up to `end` is a digit and the run
/// stops at `end`, that is where the run of digits ends.
pub proof fn lemma_digits_end_is(s: Seq<u8>, from: int, end: int)
    requires
        0 <= from <= end <= s.len(),
        forall|i: int| from <= i < end ==> is_digit(#[trigger] s[i]),
        end < s.len() ==> !is_digit(s[end]),
    ensures
        digits_end(s, from) == end,
    decreases end - from,
{
    if from < end {
        lemma_digits_end_is(s, from + 1, end);
    }
}

/// Reading a rendered decimal gives the raw integer back.
pub proof fn lemma_parse_of_text(v: int, d: nat)
    ensures
        parse_spec(text_of(v, d), d) == Ok::<int, ParseError>(v),
{
    let m = magnitude_of(v);
    lemma_pow10_positive(d);
    let unit = pow10(d) as nat;
    let whole = m / unit;
    let part = m % unit;
    let sign: Seq<u8> = if v < 0 {
        seq![45u8]
    } else {
        Seq::empty()
    };
    let digits = nat_digits(whole);
    let padded = padded_digits(part, d);
    let fraction: Seq<u8> = if d > 0 {
        seq![46u8] + padded
    } else {
        Seq::empty()
    };
    let t = text_of(v, d);
    assert(t == sign + digits + fraction);
    lemma_nat_digits(whole);
    lemma_padded_digits(part, d);
    assert(m == whole * unit + part && part < unit) by (nonlinear_arith)
        requires
            unit > 0,
            whole == m / unit,
            part == m % unit,
    ;
    let start = sign.len() as int;
    let int_end = start + digits.len();
    assert(forall|i: int| start <= i < int_end ==> t[i] == digits[i - start]);
    assert(t[start] == digits[0]);
    assert(is_digit(t[start]));
    if d > 0 {
        assert(t[int_end] == 46u8);
        assert(forall|i: int| int_end + 1 <= i < t.len() ==> t[i] == padded[i - int_end - 1]);
    }
    lemma_digits_end_is(t, start, int_end);
    assert(t.subrange(start, int_end) =~= digits);
    if d == 0 {
        reveal(pow);
        assert(unit == 1);
        assert(int_end == t.len());
    } else {
        lemma_digits_end_is(t, int_end + 1, t.len() as int);
        let f = t.subrange(int_end + 1, t.len() as int);
        assert(f =~= padded);
        assert(f.take(d as int) =~= padded);
        assert(fraction_value(f, d) == part);
    }
}

/// Reading a rendered integer gives the integer back.
pub proof fn lemma_parse_of_integer_text(v: int)
    ensures
        parse_integer_spec(text_of(v, 0)) == Ok::<int, ParseError>(v),
{
    reveal(pow);
    let m = magnitude_of(v);
    let sign: Seq<u8> = if v < 0 {
        seq![45u8]
    } else {
        Seq::empty()
    };
    let digits = nat_digits(m);
    let t = text_of(v, 0);
    assert(pow10(0) == 1);
    assert(m / 1 == m);
    assert(t =~= sign + digits);
    lemma_nat_digits(m);
    let start = sign.len() as int;
    assert(forall|i: int| start <= i < t.len() ==> t[i] == digits[i - start]);
    assert(t[start] == digits[0]);
    assert(is_digit(t[start]));
    lemma_digits_end_is(t, start, t.len() as int);
    assert(t.subrange(start, t.len() as int) =~= digits);
}

/// A rendered decimal consists of ASCII characters.
pub proof fn lemma_text_is_ascii(v: int, d: nat)
    ensures
        forall|i: int| 0 <= i < text_of(v, d).len() ==> #[trigger] text_of(v, d)[i] < 128,
{
    let m = magnitude_of(v);
    let unit = pow10(d) as nat;
    let sign: Seq<u8> = if v < 0 {
        seq![45u8]
    } else {
        Seq::empty()
    };
    let digits = nat_digits(m / unit);
    let padded = padded_digits(m % unit, d);
    let fraction: Seq<u8> = if d > 0 {
        seq![46u8] + padded
    } else {
        Seq::empty()
    };
    let t = text_of(v, d);
    lemma_nat_digits(m / unit);
    lemma_padded_digits(m % unit, d);
    assert forall|i: int| 0 <= i < t.len() implies #[trigger] t[i] < 128 by {
        let start = sign.len() as int;
        let int_end = start + digits.len();
        if i < start {
        } else if i < int_end {
            assert(t[i] == digits[i - start]);
        } else if i == int_end {
        } else {
            assert(t[i] == padded[i - int_end - 1]);
        }
    }
}

/// Trusted: `String::from_utf8`, which accepts every sequence of ASCII
/// bytes and turns each byte into the character with that code.
#[verifier::external_body]
pub(crate) fn ascii_string(bytes: Vec<u8>) -> (r: String)
    requires
        forall|i: int| 0 <= i < bytes@.len() ==> #[trigger] bytes@[i] < 128,
    ensures
        r@ == bytes@.map_values(|b: u8| b as char),
{
    match String::from_utf8(bytes) {
        Ok(text) => text,
        Err(_) => String::new(),
    }
}

/// Splits off the last decimal digit: the rest of the number, and the digit
/// as an ASCII character.
fn split_last_digit(n: &HeapInt, ten: &HeapInt) -> (r: (HeapInt, u8))
    requires
        n.wf(),
        ten.wf(),
        ten.value() == 10,
    ensures
        r.0.wf(),
        r.0.value() == n.value() / 10,
        r.1 == digit_char(n.value()),
{
    match n.checked_div_rem(ten) {
        Some((rest, digit)) => {
            match digit.to_u128() {
                Some(d) => (rest, 48 + d as u8),
                None => (rest, 48),
            }
        },
        None => (HeapInt::zero(), 48),
    }
}

/// Renders the raw integer `raw` at the given scale.
pub fn format_decimal(raw: &SafeInt, scale: usize) -> (r: Vec<u8>)
    requires
        raw.wf(),
        valid_scale(scale as nat),
    ensures
        r@ == text_of(raw@, scale as nat),
{
    let ten = HeapInt::from_u128(10);
    let unit = ten.pow(scale as u32);
    proof {
        lemma_pow10_positive(scale as nat);
    }
    let (whole, part) = match raw.magnitude().checked_div_rem(&unit) {
        Some(pair) => pair,
        None => (HeapInt::zero(), HeapInt::zero()),
    };
    let ghost whole_value = whole.value();
    let ghost part_value = part.value();
    let mut out: Vec<u8> = Vec::new();
    let mut cur = part;
    let mut i: usize = scale;
    while i > 0
        invariant
            i <= scale,
            cur.wf(),
            ten.wf(),
            ten.value() == 10,
            padded_digits(part_value, scale as nat) == padded_digits(cur.value(), i as nat)
                + out@,
        decreases i,
    {
        let (rest, c) = split_last_digit(&cur, &ten);
        proof {
            assert(padded_digits(rest.value(), (i - 1) as nat).push(c) + out@ =~= padded_digits(
                rest.value(),
                (i - 1) as nat,
            ) + out@.insert(0, c));
        }
        out.insert(0, c);
        cur = rest;
        i = i - 1;
    }
    proof {
        assert(padded_digits(cur.value(), 0) + out@ =~= out@);
    }
    if scale > 0 {
        out.insert(0, 46);
    }
    let ghost fraction = out@;
    proof {
        assert(scale > 0 ==> fraction =~= seq![46u8] + padded_digits(part_value, scale as nat));
        assert(nat_digits(whole_value) + fraction =~= nat_digits(whole_value) + out@);
    }
    let mut cur = whole;
    while !cur.less(&ten)
        invariant
            cur.wf(),
            ten.wf(),
            ten.value() == 10,
            nat_digits(whole_value) + fraction == nat_digits(cur.value()) + out@,
        decreases cur.value(),
    {
        let (rest, c) = split_last_digit(&cur, &ten);
        proof {
            assert(nat_digits(rest.value()).push(c) + out@ =~= nat_digits(rest.value())
                + out@.insert(0, c));
        }
        out.insert(0, c);
        cur = rest;
    }
    let (_, c) = split_last_digit(&cur, &ten);
    proof {
        assert(nat_digits(cur.value()) + out@ =~= out@.insert(0, c));
    }
    out.insert(0, c);
    if raw.is_negative() {
        proof {
            assert(seq![45u8] + nat_digits(whole_value) + fraction =~= out@.insert(0, 45u8));
        }
        out.insert(0, 45);
    } else {
        proof {
            assert(Seq::<u8>::empty() + nat_digits(whole_value) + fraction =~= out@);
        }
    }
    out
}

} // verus!
