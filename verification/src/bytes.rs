//! The strict raw-byte codec: an explicitly opt-in alternative to the text
//! codec that emits the buffer as a byte-sequence token and rejects input
//! whose length is not exactly the capacity.
//!
//! Where the text codec truncates oversized input, this path is strict:
//! a length mismatch is an error, never a silent adjustment.

use vstd::prelude::*;
use vstd::slice::slice_to_vec;

use crate::fixed::FixedStr;
use crate::fixed::FixedStrError;

verus! {

/// What the byte codec emits for a buffer: the raw bytes, with no UTF-8
/// interpretation at all.
pub open spec fn byte_serialize_spec(data: Seq<u8>) -> Seq<u8> {
    data
}

/// What deserializing a byte token into capacity `n` yields: the token
/// itself when its length is exactly `n`, nothing otherwise.
pub open spec fn byte_deserialize_spec(b: Seq<u8>, n: int) -> Option<Seq<u8>> {
    if b.len() == n {
        Some(b)
    } else {
        None
    }
}

/// Emits the raw buffer as a byte-sequence token; this path never fails.
pub fn byte_serialize(v: &FixedStr) -> (out: Vec<u8>)
    ensures
        out@ == byte_serialize_spec(v@),
{
    slice_to_vec(v.as_bytes())
}

/// Exact-length construction from a byte token: succeeds with exactly the
/// token's bytes when its length equals the capacity, and fails with
/// `LengthMismatch` on any other length.
pub fn byte_deserialize(b: &[u8], capacity: usize) -> (r: Result<FixedStr, FixedStrError>)
    ensures
        r is Ok <==> b@.len() == capacity,
        match r {
            Ok(v) => byte_deserialize_spec(b@, capacity as int) == Some(v@) && v@ == b@,
            Err(e) => byte_deserialize_spec(b@, capacity as int) is None && e
                == FixedStrError::LengthMismatch,
        },
{
    FixedStr::from_bytes(capacity, b)
}

/// Byte round trip: what the byte codec emits is accepted back by the
/// strict deserializer at the same capacity, bytes unchanged.
pub proof fn lemma_byte_round_trip(data: Seq<u8>, n: int)
    requires
        data.len() == n,
    ensures
        byte_deserialize_spec(byte_serialize_spec(data), n) == Some(data),
{
}

} // verus!
