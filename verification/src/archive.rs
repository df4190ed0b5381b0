//! The archival codec: the archived form is byte-identical to the live
//! value, validation accepts every byte pattern of the right length, and
//! deserialization is the identity.
//!
//! The portability claim behind this identity mapping holds because the
//! value is a flat byte buffer: no pointers, no padding gaps, no
//! platform-dependent layout. Everything the codec does is therefore a
//! plain copy, stated here exactly.

use vstd::prelude::*;
use vstd::slice::slice_to_vec;

use crate::fixed::FixedStr;
use crate::fixed::FixedStrError;

verus! {

/// What archiving emits for a buffer: the raw bytes, unchanged.
pub open spec fn archive_serialize_spec(data: Seq<u8>) -> Seq<u8> {
    data
}

/// When archived bytes are a structurally valid value of capacity `n`:
/// always, as long as the length is exactly `n`. Content is never
/// inspected; invalid text is still a valid archived value.
pub open spec fn archive_valid_spec(bytes: Seq<u8>, n: int) -> bool {
    bytes.len() == n
}

/// What deserializing an archived value yields: the same bytes.
pub open spec fn archive_deserialize_spec(data: Seq<u8>) -> Seq<u8> {
    data
}

/// Writes the value to the archive: exactly its raw bytes.
pub fn archive_serialize(v: &FixedStr) -> (out: Vec<u8>)
    ensures
        out@ == archive_serialize_spec(v@),
{
    slice_to_vec(v.as_bytes())
}

/// The validation hook: accepts every byte pattern of exactly the
/// capacity, and nothing else.
pub fn archive_validate(bytes: &[u8], capacity: usize) -> (r: bool)
    ensures
        r == archive_valid_spec(bytes@, capacity as int),
{
    bytes.len() == capacity
}

/// Zero-copy access: validates the archived bytes and views them as a live
/// value, observing exactly the bytes that were written.
pub fn archive_access(bytes: &[u8], capacity: usize) -> (r: Result<FixedStr, FixedStrError>)
    ensures
        r is Ok <==> archive_valid_spec(bytes@, capacity as int),
        match r {
            Ok(v) => v@ == bytes@,
            Err(e) => e == FixedStrError::LengthMismatch,
        },
{
    if archive_validate(bytes, capacity) {
        Ok(FixedStr::from_exact(bytes))
    } else {
        Err(FixedStrError::LengthMismatch)
    }
}

/// Deserializes an archived value: the identity, returning a copy with the
/// same bytes. This step cannot fail.
pub fn archive_deserialize(archived: &FixedStr) -> (v: FixedStr)
    ensures
        v@ == archive_deserialize_spec(archived@),
{
    archived.clone()
}

/// Archival round trip: any byte pattern of the capacity — valid text or
/// not — archives to a valid archived value whose deserialization carries
/// exactly the original bytes.
pub proof fn lemma_archive_round_trip(b: Seq<u8>, n: int)
    requires
        b.len() == n,
    ensures
        archive_valid_spec(archive_serialize_spec(b), n),
        archive_deserialize_spec(archive_serialize_spec(b)) == b,
{
}

} // verus!
