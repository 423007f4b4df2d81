//! Deduplication for the binary form.
//!
//! An encoder and a decoder each keep a context: the values seen so far, in
//! the order in which they first came. A value that the context holds is
//! written as a back-reference: the byte 5 and the position of the value in
//! the context as eight bytes, least significant first. Any other value is
//! written in its plain form and, where that form is longer than a
//! back-reference, enters the context. A decoder that starts from the same
//! context as the encoder stays in step with it.

use vstd::prelude::*;
use vstd::bytes::{
    spec_u64_to_le_bytes,
    spec_u64_from_le_bytes,
    u64_to_le_bytes,
    u64_from_le_bytes,
    lemma_auto_spec_u64_to_from_le_bytes,
};
use vstd::slice::slice_subrange;
use crate::digits::le_bytes;
use crate::integer::{SafeInt, magnitude_of};
use crate::codec::{
    bytes_required,
    required_len,
    encode,
    decode,
    encode_spec,
    decode_spec,
    lemma_round_trip,
    lemma_decoded_bytes_are_the_encoding,
    DecodeError,
};

verus! {

/// The header byte of a back-reference.
pub const BACK_REFERENCE: u8 = 5;

/// The length of a back-reference in bytes.
pub const BACK_REFERENCE_LEN: usize = 9;

/// Whether a value enters the context when it is first written: its plain
/// form is longer than a back-reference.
pub open spec fn remembered(v: int) -> bool {
    encode_spec(v).len() > BACK_REFERENCE_LEN
}

/// The context after the value `v` came by.
pub open spec fn context_after(seen: Seq<int>, v: int) -> Seq<int> {
    if !seen.contains(v) && remembered(v) {
        seen.push(v)
    } else {
        seen
    }
}

/// The bytes that stand for `v` under the context `seen`.
pub open spec fn encode_with_spec(seen: Seq<int>, v: int) -> Seq<u8> {
    if seen.contains(v) {
        seq![BACK_REFERENCE] + spec_u64_to_le_bytes(seen.index_of(v) as u64)
    } else {
        encode_spec(v)
    }
}

/// What the start of `bytes` decodes to under the context `seen`: the
/// value, the number of bytes it took and the context afterwards, or the
/// reason for refusing the bytes.
pub open spec fn decode_with_spec(seen: Seq<int>, bytes: Seq<u8>) -> Result<
    (int, nat, Seq<int>),
    DecodeError,
> {
    if bytes.len() > 0 && bytes[0] == BACK_REFERENCE {
        if bytes.len() < BACK_REFERENCE_LEN {
            Err(DecodeError::Truncated)
        } else {
            let index = spec_u64_from_le_bytes(bytes.subrange(1, 9)) as int;
            if index >= seen.len() {
                Err(DecodeError::UnknownReference)
            } else {
                Ok((seen[index], BACK_REFERENCE_LEN as nat, seen))
            }
        }
    } else {
        match decode_spec(bytes) {
            Ok((v, n)) => Ok((v, n, context_after(seen, v))),
            Err(e) => Err(e),
        }
    }
}

/// A decoder that holds the encoder's context reads the value that was
/// written, takes exactly the bytes that were written, and ends with the
/// context that the encoder ends with.
pub proof fn lemma_round_trip_with(seen: Seq<int>, v: int, rest: Seq<u8>)
    requires
        seen.len() <= u64::MAX,
        le_bytes(magnitude_of(v)).len() <= u64::MAX,
    ensures
        decode_with_spec(seen, encode_with_spec(seen, v) + rest) == Ok::<
            (int, nat, Seq<int>),
            DecodeError,
        >((v, encode_with_spec(seen, v).len(), context_after(seen, v))),
{
    let written = encode_with_spec(seen, v);
    let all = written + rest;
    lemma_auto_spec_u64_to_from_le_bytes();
    if seen.contains(v) {
        let index = seen.index_of(v);
        assert(all.subrange(1, 9) =~= spec_u64_to_le_bytes(index as u64));
    } else {
        lemma_round_trip(v, rest);
        assert(all[0] == encode_spec(v)[0]);
    }
}

/// How many bytes, counted from the start, must be at hand before the
/// value at the start of `bytes` can be decoded under a context: nine for a
/// back-reference, and otherwise what the plain form needs.
pub open spec fn required_len_with(bytes: Seq<u8>) -> nat {
    if bytes.len() > 0 && bytes[0] == BACK_REFERENCE {
        BACK_REFERENCE_LEN as nat
    } else {
        required_len(bytes)
    }
}

/// Under a context, bytes are refused as cut short exactly when fewer are
/// at hand than the value needs.
pub proof fn lemma_truncated_iff_short_with(seen: Seq<int>, bytes: Seq<u8>)
    ensures
        decode_with_spec(seen, bytes) == Err::<(int, nat, Seq<int>), DecodeError>(
            DecodeError::Truncated,
        ) <==> bytes.len() < required_len_with(bytes),
{
}

/// How many bytes must be at hand before `decode_with` can settle the value
/// at the start of `bytes`: see `required_len_with`. `None` where that
/// number does not fit in a `usize`.
pub fn bytes_required_with(bytes: &[u8]) -> (r: Option<usize>)
    ensures
        r is Some <==> required_len_with(bytes@) <= usize::MAX,
        r matches Some(n) ==> n == required_len_with(bytes@),
{
    if bytes.len() > 0 && bytes[0] == BACK_REFERENCE {
        Some(BACK_REFERENCE_LEN)
    } else {
        bytes_required(bytes)
    }
}

/// The values seen so far by one side of a deduplicating exchange.
#[derive(Debug)]
pub struct DedupContext {
    seen: Vec<SafeInt>,
}

impl View for DedupContext {
    type V = Seq<int>;

    /// The integers held, in the order in which they first came.
    closed spec fn view(&self) -> Seq<int> {
        self.seen@.map_values(|x: SafeInt| x@)
    }
}

impl DedupContext {
    /// The representation invariant: every value held is well formed, and
    /// none is held twice.
    pub closed spec fn wf(&self) -> bool {
        &&& forall|i: int| 0 <= i < self.seen@.len() ==> (#[trigger] self.seen@[i]).wf()
        &&& self@.no_duplicates()
    }

    /// A context that holds nothing.
    pub fn new() -> (r: DedupContext)
        ensures
            r.wf(),
            r@ == Seq::<int>::empty(),
    {
        let r = DedupContext { seen: Vec::new() };
        assert(r@ =~= Seq::<int>::empty());
        r
    }

    /// The number of values held.
    pub fn len(&self) -> (r: usize)
        ensures
            r == self@.len(),
    {
        self.seen.len()
    }

    /// Where the context holds `value`, if it does.
    pub fn position(&self, value: &SafeInt) -> (r: Option<usize>)
        requires
            self.wf(),
        ensures
            r is Some <==> self@.contains(value@),
            r matches Some(i) ==> i == self@.index_of(value@),
    {
        let mut i: usize = 0;
        while i < self.seen.len()
            invariant
                i <= self.seen@.len(),
                self.wf(),
                forall|j: int| 0 <= j < i ==> self@[j] != value@,
            decreases self.seen@.len() - i,
        {
            if self.seen[i].equals(value) {
                assert(self@[i as int] == value@);
                return Some(i);
            }
            i = i + 1;
        }
        None
    }

    /// Puts `value` into the context where it belongs there.
    fn note(&mut self, value: &SafeInt, encoded_len: usize)
        requires
            old(self).wf(),
            value.wf(),
            encoded_len == encode_spec(value@).len(),
        ensures
            final(self).wf(),
            final(self)@ == context_after(old(self)@, value@),
    {
        if encoded_len > BACK_REFERENCE_LEN {
            if self.position(value).is_none() {
                let ghost before = self@;
                self.seen.push(value.clone());
                assert(self@ =~= before.push(value@));
            }
        }
    }

    /// Encodes `value` under this context, which then knows the value.
    pub fn encode_with(&mut self, value: &SafeInt) -> (r: Vec<u8>)
        requires
            old(self).wf(),
            value.wf(),
        ensures
            final(self).wf(),
            r@ == encode_with_spec(old(self)@, value@),
            final(self)@ == context_after(old(self)@, value@),
    {
        match self.position(value) {
            Some(index) => {
                let mut out: Vec<u8> = Vec::new();
                out.push(BACK_REFERENCE);
                let width = u64_to_le_bytes(index as u64);
                let mut i: usize = 0;
                while i < 8
                    invariant
                        i <= 8,
                        width@.len() == 8,
                        out@ == seq![BACK_REFERENCE] + width@.take(i as int),
                    decreases 8 - i,
                {
                    out.push(width[i]);
                    i = i + 1;
                    assert(out@ =~= seq![BACK_REFERENCE] + width@.take(i as int));
                }
                assert(width@.take(8) =~= width@);
                out
            },
            None => {
                let out = encode(value);
                self.note(value, out.len());
                out
            },
        }
    }

    /// Decodes the value at the start of `bytes` under this context, which
    /// then knows the value. Returns the value with the number of bytes
    /// that it took. Refused bytes leave the context as it was.
    pub fn decode_with(&mut self, bytes: &[u8]) -> (r: Result<(SafeInt, usize), DecodeError>)
        requires
            old(self).wf(),
        ensures
            final(self).wf(),
            match decode_with_spec(old(self)@, bytes@) {
                Ok((v, n, seen)) => r matches Ok((value, used)) && value.wf() && value@ == v
                    && used == n && final(self)@ == seen,
                Err(e) => r matches Err(x) && x == e && final(self)@ == old(self)@,
            },
    {
        if bytes.len() > 0 && bytes[0] == BACK_REFERENCE {
            if bytes.len() < BACK_REFERENCE_LEN {
                return Err(DecodeError::Truncated);
            }
            let index: u64 = u64_from_le_bytes(slice_subrange(bytes, 1, 9));
            if index >= self.seen.len() as u64 {
                return Err(DecodeError::UnknownReference);
            }
            let value = self.seen[index as usize].clone();
            Ok((value, BACK_REFERENCE_LEN))
        } else {
            match decode(bytes) {
                Ok((value, used)) => {
                    proof {
                        lemma_decoded_bytes_are_the_encoding(bytes@);
                    }
                    self.note(&value, used);
                    Ok((value, used))
                },
                Err(e) => Err(e),
            }
        }
    }
}

} // verus!
