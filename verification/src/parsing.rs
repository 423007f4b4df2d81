//! Decimal literals: `[sign] digits ['.' digits]`.

use vstd::prelude::*;
use crate::integer::SafeInt;
use crate::decimal::{pow10, valid_scale, lemma_pow10_positive};

verus! {

/// Why a literal was refused.
#[derive(Debug, Clone, Copy, PartialEq, Eq, Structural)]
pub enum ParseReason {
    /// A digit had to stand here: at the start of the integer part or right
    /// after the point.
    ExpectedDigit,
    /// The literal was complete before this character.
    UnexpectedCharacter,
    /// The scale asked for lies beyond the ceilings; nothing was read.
    ScaleTooLarge,
}

/// A refused literal: where, and why.
#[derive(Debug, Clone, Copy, PartialEq, Eq, Structural)]
pub struct ParseError {
    pub position: usize,
    pub reason: ParseReason,
}

/// Whether `c` is an ASCII decimal digit.
pub open spec fn is_digit(c: u8) -> bool {
    48 <= c <= 57
}

/// The number written by the decimal digits `s`, most significant first.
pub open spec fn digits_value(s: Seq<u8>) -> nat
    decreases s.len(),
{
    if s.len() == 0 {
        0
    } else {
        digits_value(s.drop_last()) * 10 + (s.last() - 48) as nat
    }
}

/// The end of the run of digits that starts at `from`.
pub open spec fn digits_end(s: Seq<u8>, from: int) -> int
    decreases s.len() - from,
{
    if 0 <= from < s.len() && is_digit(s[from]) {
        digits_end(s, from + 1)
    } else {
        from
    }
}

/// The fraction digits `f` as a count of units of `10^-d`: digits beyond the
/// `d`-th are cut off, missing ones count as zero.
pub open spec fn fraction_value(f: Seq<u8>, d: nat) -> nat {
    if f.len() >= d {
        digits_value(f.take(d as int))
    } else {
        (digits_value(f) * pow10((d - f.len()) as nat)) as nat
    }
}

/// The integer with the given sign and magnitude.
pub open spec fn signed(negative: bool, m: int) -> int {
    if negative {
        -m
    } else {
        m
    }
}

/// What a literal means at scale `d`: its raw integer, or where and why it
/// is refused.
pub open spec fn parse_spec(s: Seq<u8>, d: nat) -> Result<int, ParseError> {
    let negative = s.len() > 0 && s[0] == 45;
    let start: int = if s.len() > 0 && (s[0] == 43 || s[0] == 45) {
        1
    } else {
        0
    };
    let int_end = digits_end(s, start);
    let whole = digits_value(s.subrange(start, int_end)) * pow10(d);
    if int_end == start {
        Err(ParseError { position: start as usize, reason: ParseReason::ExpectedDigit })
    } else if int_end == s.len() {
        Ok(signed(negative, whole))
    } else if s[int_end] != 46 {
        Err(ParseError { position: int_end as usize, reason: ParseReason::UnexpectedCharacter })
    } else {
        let frac_end = digits_end(s, int_end + 1);
        if frac_end == int_end + 1 {
            Err(ParseError { position: frac_end as usize, reason: ParseReason::ExpectedDigit })
        } else if frac_end != s.len() {
            Err(
                ParseError {
                    position: frac_end as usize,
                    reason: ParseReason::UnexpectedCharacter,
                },
            )
        } else {
            Ok(signed(negative, whole + fraction_value(s.subrange(int_end + 1, frac_end), d)))
        }
    }
}

/// What an integer literal means: an optional sign and one or more digits.
pub open spec fn parse_integer_spec(s: Seq<u8>) -> Result<int, ParseError> {
    let negative = s.len() > 0 && s[0] == 45;
    let start: int = if s.len() > 0 && (s[0] == 43 || s[0] == 45) {
        1
    } else {
        0
    };
    let end = digits_end(s, start);
    if end == start {
        Err(ParseError { position: start as usize, reason: ParseReason::ExpectedDigit })
    } else if end != s.len() {
        Err(ParseError { position: end as usize, reason: ParseReason::UnexpectedCharacter })
    } else {
        Ok(signed(negative, digits_value(s.subrange(start, end)) as int))
    }
}

/// Reads the digits from `from` on and adds up the first `limit` of them.
/// Returns that number and the end of the run.
fn read_digits(text: &[u8], from: usize, limit: usize) -> (r: (SafeInt, usize))
    requires
        from <= text.len(),
    ensures
        r.1 == digits_end(text@, from as int),
        from <= r.1 <= text.len(),
        r.0.wf(),
        r.1 - from <= limit ==> r.0@ == digits_value(text@.subrange(from as int, r.1 as int)),
        r.1 - from > limit ==> r.0@ == digits_value(
            text@.subrange(from as int, from + limit),
        ),
{
    let ten = SafeInt::from_u64(10);
    let mut acc = SafeInt::zero();
    let mut i: usize = from;
    proof {
        assert(text@.subrange(from as int, from as int) =~= Seq::<u8>::empty());
    }
    while i < text.len() && 48 <= text[i] && text[i] <= 57
        invariant
            from <= i <= text.len(),
            ten.wf(),
            ten@ == 10,
            acc.wf(),
            digits_end(text@, from as int) == digits_end(text@, i as int),
            i - from <= limit ==> acc@ == digits_value(text@.subrange(from as int, i as int)),
            i - from > limit ==> acc@ == digits_value(text@.subrange(from as int, from + limit)),
        decreases text.len() - i,
    {
        if i - from < limit {
            let digit: u8 = text[i] - 48;
            proof {
                let next = text@.subrange(from as int, i + 1);
                assert(next.drop_last() =~= text@.subrange(from as int, i as int));
            }
            acc = acc.mul(&ten).add(&SafeInt::from_u64(digit as u64));
        }
        i = i + 1;
    }
    (acc, i)
}

/// Parses a decimal literal at the given scale and returns its raw integer.
///
/// The literal is an optional sign, one or more digits and, optionally, a
/// point followed by one or more digits. Fraction digits beyond the scale
/// are cut off, not rounded.
pub fn parse_decimal(text: &[u8], scale: usize) -> (r: Result<SafeInt, ParseError>)
    requires
        valid_scale(scale as nat),
    ensures
        match parse_spec(text@, scale as nat) {
            Ok(v) => r matches Ok(n) && n.wf() && n@ == v,
            Err(e) => r matches Err(x) && x == e,
        },
{
    let n: usize = text.len();
    let negative = n > 0 && text[0] == 45;
    let start: usize = if n > 0 && (text[0] == 43 || text[0] == 45) {
        1
    } else {
        0
    };
    let (whole_digits, int_end) = read_digits(text, start, n);
    if int_end == start {
        return Err(ParseError { position: start, reason: ParseReason::ExpectedDigit });
    }
    let unit = SafeInt::from_u64(10).pow(scale as u32);
    let whole = whole_digits.mul(&unit);
    if int_end == n {
        return Ok(if negative {
            whole.neg()
        } else {
            whole
        });
    }
    if text[int_end] != 46 {
        return Err(ParseError { position: int_end, reason: ParseReason::UnexpectedCharacter });
    }
    let (frac_digits, frac_end) = read_digits(text, int_end + 1, scale);
    if frac_end == int_end + 1 {
        return Err(ParseError { position: frac_end, reason: ParseReason::ExpectedDigit });
    }
    if frac_end != n {
        return Err(ParseError { position: frac_end, reason: ParseReason::UnexpectedCharacter });
    }
    let given: usize = frac_end - (int_end + 1);
    let fraction = if given >= scale {
        proof {
            assert(text@.subrange(int_end + 1, frac_end as int).take(scale as int)
                =~= text@.subrange(int_end + 1, int_end + 1 + scale));
        }
        frac_digits
    } else {
        proof {
            lemma_pow10_positive((scale - given) as nat);
            assert(frac_digits@ >= 0 && pow10((scale - given) as nat) > 0 ==> frac_digits@
                * pow10((scale - given) as nat) >= 0) by (nonlinear_arith);
        }
        frac_digits.mul(&SafeInt::from_u64(10).pow((scale - given) as u32))
    };
    let total = whole.add(&fraction);
    Ok(if negative {
        total.neg()
    } else {
        total
    })
}

/// Parses an integer literal: an optional sign and one or more digits.
pub fn parse_integer(text: &[u8]) -> (r: Result<SafeInt, ParseError>)
    ensures
        match parse_integer_spec(text@) {
            Ok(v) => r matches Ok(n) && n.wf() && n@ == v,
            Err(e) => r matches Err(x) && x == e,
        },
{
    let n: usize = text.len();
    let negative = n > 0 && text[0] == 45;
    let start: usize = if n > 0 && (text[0] == 43 || text[0] == 45) {
        1
    } else {
        0
    };
    let (digits, end) = read_digits(text, start, n);
    if end == start {
        return Err(ParseError { position: start, reason: ParseReason::ExpectedDigit });
    }
    if end != n {
        return Err(ParseError { position: end, reason: ParseReason::UnexpectedCharacter });
    }
    Ok(if negative {
        digits.neg()
    } else {
        digits
    })
}

} // verus!
