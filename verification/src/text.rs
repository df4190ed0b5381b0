//! The text codec: serializes the buffer as validated UTF-8 text with the
//! zero padding dropped, and deserializes a string token of any length by
//! truncating it at a character boundary and zero-padding the rest.
//!
//! Oversized input is deliberately not an error on this path: truncation is
//! the defined behavior, in contrast to the strict byte codec.

use vstd::prelude::*;
use vstd::slice::slice_to_vec;

use crate::fixed::FixedStr;
use crate::fixed::FixedStrError;
use crate::utf8::is_valid_utf8;
use crate::utf8::lemma_effective_len_bounds;
use crate::utf8::lemma_snap_back_bounds;
use crate::utf8::lemma_valid_utf8_trimmed;
use crate::utf8::lemma_zero_padded_trimmed;
use crate::utf8::trimmed;
use crate::utf8::truncate_len;
use crate::utf8::zero_padded;

verus! {

/// What the text codec emits for a buffer: its trimmed content when the
/// buffer is valid UTF-8, nothing otherwise.
pub open spec fn text_serialize_spec(data: Seq<u8>) -> Option<Seq<u8>> {
    if is_valid_utf8(data) {
        Some(trimmed(data))
    } else {
        None
    }
}

/// What deserializing a string token into capacity `n` yields: the token
/// cut at a character boundary so that at most `n` bytes remain, then
/// zero-padded to exactly `n` bytes.
pub open spec fn text_deserialize_spec(s: Seq<u8>, n: int) -> Seq<u8> {
    zero_padded(s.take(truncate_len(s, n)), n)
}

/// Serializes the buffer as a UTF-8 string token, or fails with
/// `InvalidUtf8` when the buffer does not hold valid text. No replacement
/// characters are substituted and nothing is cut at an invalid byte: the
/// operation succeeds exactly on valid buffers.
pub fn text_serialize(v: &FixedStr) -> (r: Result<Vec<u8>, FixedStrError>)
    ensures
        r is Ok <==> is_valid_utf8(v@),
        match r {
            Ok(t) => text_serialize_spec(v@) == Some(t@),
            Err(e) => text_serialize_spec(v@) is None && e == FixedStrError::InvalidUtf8,
        },
{
    match v.try_as_text() {
        Ok(t) => Ok(slice_to_vec(t)),
        Err(e) => Err(e),
    }
}

/// Deserializes a string token of arbitrary length, truncating to fit the
/// capacity; oversized input is never an error.
pub fn text_deserialize(s: &[u8], capacity: usize) -> (v: FixedStr)
    requires
        is_valid_utf8(s@),
    ensures
        v@ == text_deserialize_spec(s@, capacity as int),
        v@.len() == capacity,
{
    FixedStr::new(capacity, s)
}

/// Text round trip: serializing a valid buffer and deserializing the token
/// back into the same capacity reproduces the buffer exactly, and the
/// emitted token is itself valid UTF-8.
pub proof fn lemma_text_round_trip(data: Seq<u8>)
    requires
        is_valid_utf8(data),
    ensures
        text_serialize_spec(data) matches Some(t) && is_valid_utf8(t) && text_deserialize_spec(
            t,
            data.len() as int,
        ) == data,
{
    lemma_valid_utf8_trimmed(data);
    lemma_effective_len_bounds(data);
    let t = trimmed(data);
    assert(truncate_len(t, data.len() as int) == t.len());
    assert(t.take(t.len() as int) =~= t);
    lemma_zero_padded_trimmed(data);
}

/// Truncation on overflow: a token longer than the capacity deserializes
/// without error to exactly the capacity, keeping an initial segment of
/// the token and zero-padding the rest.
pub proof fn lemma_text_truncates(s: Seq<u8>, n: int)
    requires
        0 <= n < s.len(),
    ensures
        0 <= truncate_len(s, n) <= n,
        text_deserialize_spec(s, n).len() == n,
        forall|i: int|
            0 <= i < truncate_len(s, n) ==> text_deserialize_spec(s, n)[i] == s[i],
        forall|i: int| truncate_len(s, n) <= i < n ==> text_deserialize_spec(s, n)[i] == 0,
{
    lemma_snap_back_bounds(s, n);
}

} // verus!
