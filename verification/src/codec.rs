//! The binary form of a signed integer.
//!
//! The first byte is a header. Its lowest bit selects the form, the next bit
//! is the sign (set for a negative value). In the short form the upper six
//! bits give the number of magnitude bytes, at most 63, which follow least
//! significant first. In the long form the upper six bits are zero, the
//! number of magnitude bytes follows as eight bytes, least significant first,
//! and then the magnitude bytes themselves. A magnitude is always written
//! with its shortest byte sequence, and in the short form whenever that has
//! at most 63 bytes, so that every integer has exactly one encoding.

use vstd::prelude::*;
use vstd::bytes::{
    spec_u64_to_le_bytes,
    spec_u64_from_le_bytes,
    u64_to_le_bytes,
    u64_from_le_bytes,
    lemma_auto_spec_u64_to_from_le_bytes,
};
use vstd::slice::slice_subrange;
use crate::digits::{
    le_value,
    le_bytes,
    canonical,
    lemma_value_of_bytes,
    lemma_bytes_canonical,
    lemma_bytes_of_value,
    lemma_canonical_positive,
};
use crate::heapint::HeapInt;
use crate::integer::{SafeInt, magnitude_of};
use crate::parsing::signed;

verus! {

/// The longest magnitude, in bytes, that the short form holds.
pub const SHORT_FORM_MAX: usize = 63;

/// Why bytes were refused.
#[derive(Debug, Clone, Copy, PartialEq, Eq, Structural)]
pub enum DecodeError {
    /// The input ends before the value does.
    Truncated,
    /// The header of a long form has a bit set among its upper six.
    InvalidHeader,
    /// The value is not written in its one valid way: a magnitude with a
    /// superfluous zero byte, a negative zero, or a long form for a
    /// magnitude that the short form holds.
    NonCanonical,
    /// A back-reference names a value that has not been seen.
    UnknownReference,
}

/// The header byte for a sign and, in the short form, a payload length.
pub open spec fn header(negative: bool, long: bool, len: nat) -> u8 {
    (len * 4 + (if negative {
        2nat
    } else {
        0nat
    }) + (if long {
        1nat
    } else {
        0nat
    })) as u8
}

/// The encoding of the integer `v`.
pub open spec fn encode_spec(v: int) -> Seq<u8> {
    let payload = le_bytes(magnitude_of(v));
    if payload.len() <= SHORT_FORM_MAX {
        seq![header(v < 0, false, payload.len())] + payload
    } else {
        seq![header(v < 0, true, 0)] + spec_u64_to_le_bytes(payload.len() as u64) + payload
    }
}

/// What the payload of a value means, given its sign.
pub open spec fn payload_spec(negative: bool, payload: Seq<u8>, consumed: nat) -> Result<
    (int, nat),
    DecodeError,
> {
    if !canonical(payload) || (negative && payload.len() == 0) {
        Err(DecodeError::NonCanonical)
    } else {
        Ok((signed(negative, le_value(payload) as int), consumed))
    }
}

/// What the start of `bytes` decodes to: an integer and the number of bytes
/// it took, or the reason for refusing them.
pub open spec fn decode_spec(bytes: Seq<u8>) -> Result<(int, nat), DecodeError> {
    if bytes.len() == 0 {
        Err(DecodeError::Truncated)
    } else {
        let h = bytes[0];
        let negative = (h / 2) % 2 == 1;
        if h % 2 == 0 {
            let n = (h / 4) as int;
            if bytes.len() < 1 + n {
                Err(DecodeError::Truncated)
            } else {
                payload_spec(negative, bytes.subrange(1, 1 + n), (1 + n) as nat)
            }
        } else if h / 4 != 0 {
            Err(DecodeError::InvalidHeader)
        } else if bytes.len() < 9 {
            Err(DecodeError::Truncated)
        } else {
            let n = spec_u64_from_le_bytes(bytes.subrange(1, 9)) as int;
            if n <= SHORT_FORM_MAX {
                Err(DecodeError::NonCanonical)
            } else if bytes.len() < 9 + n {
                Err(DecodeError::Truncated)
            } else {
                payload_spec(negative, bytes.subrange(9, 9 + n), (9 + n) as nat)
            }
        }
    }
}

/// Decoding an encoding gives the integer back, whatever follows it, and
/// takes exactly the bytes of the encoding.
pub proof fn lemma_round_trip(v: int, rest: Seq<u8>)
    requires
        le_bytes(magnitude_of(v)).len() <= u64::MAX,
    ensures
        decode_spec(encode_spec(v) + rest) == Ok::<(int, nat), DecodeError>(
            (v, encode_spec(v).len()),
        ),
{
    let m = magnitude_of(v);
    let payload = le_bytes(m);
    let all = encode_spec(v) + rest;
    lemma_value_of_bytes(m);
    lemma_bytes_canonical(m);
    lemma_auto_spec_u64_to_from_le_bytes();
    if payload.len() <= SHORT_FORM_MAX {
        assert(all.subrange(1, 1 + payload.len() as int) =~= payload);
    } else {
        let width = spec_u64_to_le_bytes(payload.len() as u64);
        assert(all.subrange(1, 9) =~= width);
        assert(all.subrange(9, 9 + payload.len() as int) =~= payload);
    }
}

/// Only the encoding of a value decodes to it: the bytes that a successful
/// decoding took are the encoding of the value it gave.
pub proof fn lemma_decoded_bytes_are_the_encoding(bytes: Seq<u8>)
    ensures
        decode_spec(bytes) matches Ok((v, n)) ==> n <= bytes.len() && encode_spec(v)
            == bytes.subrange(0, n as int),
{
    if let Ok((v, n)) = decode_spec(bytes) {
        let h = bytes[0];
        let negative = (h / 2) % 2 == 1;
        let payload = if h % 2 == 0 {
            bytes.subrange(1, 1 + (h / 4) as int)
        } else {
            bytes.subrange(9, 9 + spec_u64_from_le_bytes(bytes.subrange(1, 9)) as int)
        };
        lemma_bytes_of_value(payload);
        if payload.len() > 0 {
            lemma_canonical_positive(payload);
        }
        assert(le_bytes(magnitude_of(v)) == payload);
        assert((v < 0) == negative);
        lemma_auto_spec_u64_to_from_le_bytes();
        if h % 2 == 0 {
            assert(encode_spec(v) =~= bytes.subrange(0, n as int));
        } else {
            let width = bytes.subrange(1, 9);
            assert(spec_u64_to_le_bytes(spec_u64_from_le_bytes(width)) == width);
            assert(encode_spec(v) =~= bytes.subrange(0, n as int));
        }
    }
}

/// How many bytes, counted from the start, must be at hand before the
/// value at the start of `bytes` can be decoded or refused for another
/// reason than being cut short. With no byte at hand that is one, the
/// header; with the header at hand it is what the header asks for.
pub open spec fn required_len(bytes: Seq<u8>) -> nat {
    if bytes.len() == 0 {
        1
    } else {
        let h = bytes[0];
        if h % 2 == 0 {
            (1 + h / 4) as nat
        } else if h / 4 != 0 {
            1
        } else if bytes.len() < 9 {
            9
        } else {
            let n = spec_u64_from_le_bytes(bytes.subrange(1, 9));
            if n <= SHORT_FORM_MAX {
                9
            } else {
                (9 + n) as nat
            }
        }
    }
}

/// Bytes are refused as cut short exactly when fewer are at hand than the
/// value needs.
pub proof fn lemma_truncated_iff_short(bytes: Seq<u8>)
    ensures
        decode_spec(bytes) == Err::<(int, nat), DecodeError>(DecodeError::Truncated)
            <==> bytes.len() < required_len(bytes),
{
}

/// An encoding is as long as it says itself that it needs to be.
pub proof fn lemma_encoding_is_complete(v: int)
    requires
        le_bytes(magnitude_of(v)).len() <= u64::MAX,
    ensures
        required_len(encode_spec(v)) == encode_spec(v).len(),
{
    let payload = le_bytes(magnitude_of(v));
    let all = encode_spec(v);
    lemma_auto_spec_u64_to_from_le_bytes();
    if payload.len() > SHORT_FORM_MAX {
        assert(all.subrange(1, 9) =~= spec_u64_to_le_bytes(payload.len() as u64));
    }
}

/// A copy of `bytes` from `from` up to `to`.
fn copy_range(bytes: &[u8], from: usize, to: usize) -> (r: Vec<u8>)
    requires
        from <= to <= bytes.len(),
    ensures
        r@ == bytes@.subrange(from as int, to as int),
{
    let mut out: Vec<u8> = Vec::new();
    let mut i: usize = from;
    while i < to
        invariant
            from <= i <= to <= bytes.len(),
            out@ == bytes@.subrange(from as int, i as int),
        decreases to - i,
    {
        out.push(bytes[i]);
        i = i + 1;
        assert(out@ =~= bytes@.subrange(from as int, i as int));
    }
    out
}

/// Appends `tail` to `out`.
fn append(out: &mut Vec<u8>, tail: &Vec<u8>)
    ensures
        final(out)@ == old(out)@ + tail@,
{
    let ghost before = out@;
    let mut i: usize = 0;
    while i < tail.len()
        invariant
            i <= tail.len(),
            out@ == before + tail@.take(i as int),
        decreases tail.len() - i,
    {
        out.push(tail[i]);
        i = i + 1;
        assert(out@ =~= before + tail@.take(i as int));
    }
    assert(tail@.take(tail.len() as int) =~= tail@);
}

/// Encodes an integer.
pub fn encode(value: &SafeInt) -> (r: Vec<u8>)
    requires
        value.wf(),
    ensures
        r@ == encode_spec(value@),
{
    let payload = value.magnitude().to_le_bytes();
    let sign: u8 = if value.is_negative() {
        2
    } else {
        0
    };
    let mut out: Vec<u8> = Vec::new();
    if payload.len() <= SHORT_FORM_MAX {
        let n: u8 = payload.len() as u8;
        out.push(n * 4 + sign);
        append(&mut out, &payload);
    } else {
        out.push(sign + 1);
        let width = u64_to_le_bytes(payload.len() as u64);
        append(&mut out, &width);
        append(&mut out, &payload);
    }
    out
}

/// Builds the integer from a sign and the payload at `from..to`.
fn decode_payload(bytes: &[u8], negative: bool, from: usize, to: usize) -> (r: Result<
    (SafeInt, usize),
    DecodeError,
>)
    requires
        from <= to <= bytes.len(),
    ensures
        match payload_spec(negative, bytes@.subrange(from as int, to as int), to as nat) {
            Ok((v, n)) => r matches Ok((value, used)) && value.wf() && value@ == v && used == n,
            Err(e) => r matches Err(x) && x == e,
        },
{
    if to > from && bytes[to - 1] == 0 {
        return Err(DecodeError::NonCanonical);
    }
    if negative && to == from {
        return Err(DecodeError::NonCanonical);
    }
    let magnitude = HeapInt::from_le_bytes(copy_range(bytes, from, to));
    Ok((SafeInt::from_parts(negative, magnitude), to))
}

/// Decodes the integer at the start of `bytes`. Returns it with the number
/// of bytes that it took.
pub fn decode(bytes: &[u8]) -> (r: Result<(SafeInt, usize), DecodeError>)
    ensures
        match decode_spec(bytes@) {
            Ok((v, n)) => r matches Ok((value, used)) && value.wf() && value@ == v && used == n,
            Err(e) => r matches Err(x) && x == e,
        },
{
    if bytes.len() == 0 {
        return Err(DecodeError::Truncated);
    }
    let h: u8 = bytes[0];
    let negative = (h / 2) % 2 == 1;
    if h % 2 == 0 {
        let n: usize = (h / 4) as usize;
        if bytes.len() - 1 < n {
            return Err(DecodeError::Truncated);
        }
        decode_payload(bytes, negative, 1, 1 + n)
    } else if h / 4 != 0 {
        Err(DecodeError::InvalidHeader)
    } else if bytes.len() < 9 {
        Err(DecodeError::Truncated)
    } else {
        let n: u64 = u64_from_le_bytes(slice_subrange(bytes, 1, 9));
        if n <= 63 {
            return Err(DecodeError::NonCanonical);
        }
        if ((bytes.len() - 9) as u64) < n {
            return Err(DecodeError::Truncated);
        }
        decode_payload(bytes, negative, 9, 9 + n as usize)
    }
}

/// How many bytes must be at hand before `decode` can settle the value at
/// the start of `bytes`: see `required_len`. `None` where that number does
/// not fit in a `usize`.
pub fn bytes_required(bytes: &[u8]) -> (r: Option<usize>)
    ensures
        r is Some <==> required_len(bytes@) <= usize::MAX,
        r matches Some(n) ==> n == required_len(bytes@),
{
    if bytes.len() == 0 {
        return Some(1);
    }
    let h: u8 = bytes[0];
    if h % 2 == 0 {
        Some(1 + (h / 4) as usize)
    } else if h / 4 != 0 {
        Some(1)
    } else if bytes.len() < 9 {
        Some(9)
    } else {
        let n: u64 = u64_from_le_bytes(slice_subrange(bytes, 1, 9));
        if n <= 63 {
            Some(9)
        } else if n > (usize::MAX - 9) as u64 {
            None
        } else {
            Some(9 + n as usize)
        }
    }
}

} // verus!
