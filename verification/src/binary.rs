//! The fixed-width binary codec: exactly the buffer's bytes, no framing,
//! no length prefix, no byte-order transformation (the payload is opaque
//! bytes, so endianness never applies).

use vstd::prelude::*;
use vstd::slice::slice_subrange;

use crate::fixed::FixedStr;
use crate::fixed::FixedStrError;

verus! {

/// What the binary codec emits for a buffer: the raw bytes, unchanged.
pub open spec fn binary_write_spec(data: Seq<u8>) -> Seq<u8> {
    data
}

/// What a fixed-width read of `n` bytes at `pos` yields: the `n` bytes and
/// the advanced position when they are available, nothing otherwise.
pub open spec fn binary_read_spec(src: Seq<u8>, pos: int, n: int) -> Option<(Seq<u8>, int)> {
    if 0 <= pos && pos + n <= src.len() {
        Some((src.subrange(pos, pos + n), pos + n))
    } else {
        None
    }
}

/// Appends the raw bytes of `v` to the output stream; emits exactly the
/// buffer, nothing more.
pub fn binary_write(v: &FixedStr, out: &mut Vec<u8>)
    ensures
        final(out)@ == old(out)@ + binary_write_spec(v@),
{
    let bytes = v.as_bytes();
    let n = bytes.len();
    let mut i: usize = 0;
    proof {
        assert(out@ =~= old(out)@ + v@.take(0));
    }
    while i < n
        invariant
            i <= n,
            n == v@.len(),
            bytes@ == v@,
            out@ == old(out)@ + v@.take(i as int),
        decreases n - i,
    {
        out.push(bytes[i]);
        proof {
            assert(old(out)@ + v@.take(i as int + 1) =~= (old(out)@ + v@.take(i as int)).push(
                v@[i as int],
            ));
        }
        i = i + 1;
    }
    proof {
        assert(v@.take(n as int) =~= v@);
    }
}

/// Consumes exactly `n` bytes of `src` starting at `pos`: on success the
/// value holds those bytes and the position advances by `n`; with fewer
/// than `n` bytes left the read fails with `EndOfInput` and commits no
/// partial value.
pub fn binary_read(src: &[u8], pos: usize, n: usize) -> (r: Result<(FixedStr, usize), FixedStrError>)
    ensures
        r is Ok <==> pos + n <= src@.len(),
        match r {
            Ok((v, p)) => binary_read_spec(src@, pos as int, n as int) == Some((v@, p as int))
                && v@.len() == n,
            Err(e) => binary_read_spec(src@, pos as int, n as int) is None
                && e == FixedStrError::EndOfInput,
        },
{
    if pos <= src.len() && n <= src.len() - pos {
        let chunk = slice_subrange(src, pos, pos + n);
        Ok((FixedStr::from_exact(chunk), pos + n))
    } else {
        Err(FixedStrError::EndOfInput)
    }
}

/// Fixed-width round trip: reading back exactly what was written, from the
/// position where it was written, yields the same bytes and advances the
/// position by the capacity.
pub proof fn lemma_binary_round_trip(data: Seq<u8>)
    ensures
        binary_read_spec(binary_write_spec(data), 0, data.len() as int) == Some((
            data,
            data.len() as int,
        )),
{
    assert(binary_write_spec(data).subrange(0, data.len() as int) =~= data);
}

} // verus!
