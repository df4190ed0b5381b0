//! The fixed-capacity string buffer and its error type.

use vstd::prelude::*;
use vstd::slice::slice_subrange;
use vstd::slice::slice_to_vec;

use crate::utf8::check_utf8;
use crate::utf8::cont;
use crate::utf8::effective_len;
use crate::utf8::is_valid_utf8;
use crate::utf8::lemma_effective_len_bounds;
use crate::utf8::snap_back;
use crate::utf8::trimmed;
use crate::utf8::truncate_len;
use crate::utf8::zero_padded;

verus! {

/// The conditions a codec operation can fail with.
///
/// Each variant is raised at exactly one boundary: `InvalidUtf8` when the
/// buffer is serialized as text but does not hold valid UTF-8,
/// `LengthMismatch` when byte-slice construction is handed input whose
/// length is not the capacity, and `EndOfInput` when the fixed-width binary
/// codec finds fewer bytes than the capacity before the read completes.
#[derive(Clone, Copy, Debug, PartialEq, Eq, Structural)]
pub enum FixedStrError {
    InvalidUtf8,
    LengthMismatch,
    EndOfInput,
}

/// A fixed-capacity string buffer: exactly `capacity` bytes, value-semantic,
/// intended to hold UTF-8 text but allowed to hold any byte pattern (raw
/// byte construction and the non-text codecs never validate).
///
/// The view of a `FixedStr` is the byte sequence of its whole buffer,
/// padding included; its length is always the capacity.
#[derive(Debug)]
pub struct FixedStr {
    data: Vec<u8>,
}

impl View for FixedStr {
    type V = Seq<u8>;

    closed spec fn view(&self) -> Seq<u8> {
        self.data@
    }
}

/// Byte-for-byte comparison of two slices.
fn bytes_eq(a: &[u8], b: &[u8]) -> (r: bool)
    ensures
        r == (a@ == b@),
{
    if a.len() != b.len() {
        return false;
    }
    let n = a.len();
    let mut i: usize = 0;
    while i < n
        invariant
            i <= n,
            n == a@.len(),
            a@.len() == b@.len(),
            forall|j: int| 0 <= j < i ==> a@[j] == b@[j],
        decreases n - i,
    {
        if a[i] != b[i] {
            return false;
        }
        i = i + 1;
    }
    proof {
        assert(a@ =~= b@);
    }
    true
}

impl PartialEq for FixedStr {
    /// Two values are equal exactly when their whole buffers are equal.
    fn eq(&self, other: &FixedStr) -> (r: bool) {
        bytes_eq(self.data.as_slice(), other.data.as_slice())
    }
}

impl vstd::std_specs::cmp::PartialEqSpecImpl for FixedStr {
    open spec fn obeys_eq_spec() -> bool {
        true
    }

    open spec fn eq_spec(&self, other: &FixedStr) -> bool {
        self@ == other@
    }
}

impl Clone for FixedStr {
    /// A clone carries exactly the same bytes.
    fn clone(&self) -> (r: Self)
        ensures
            r@ == self@,
    {
        FixedStr { data: slice_to_vec(self.data.as_slice()) }
    }
}

impl FixedStr {
    /// The capacity, which is also the exact length of the buffer.
    pub fn capacity(&self) -> (n: usize)
        ensures
            n == self@.len(),
    {
        self.data.len()
    }

    /// The whole buffer, padding included.
    pub fn as_bytes(&self) -> (r: &[u8])
        ensures
            r@ == self@,
    {
        self.data.as_slice()
    }

    /// The length of the content once trailing zero padding is dropped.
    pub fn len(&self) -> (k: usize)
        ensures
            k == effective_len(self@),
    {
        let mut k: usize = self.data.len();
        proof {
            assert(self@.take(k as int) =~= self@);
        }
        while k > 0 && self.data[k - 1] == 0
            invariant
                k <= self@.len(),
                self@.len() == self.data@.len(),
                effective_len(self@) == effective_len(self@.take(k as int)),
            decreases k,
        {
            proof {
                assert(self@.take(k as int).last() == self@[k - 1]);
                assert(self@.take(k as int).drop_last() =~= self@.take(k - 1));
            }
            k = k - 1;
        }
        proof {
            if k > 0 {
                assert(self@.take(k as int).last() == self@[k - 1]);
            }
        }
        k
    }

    /// Builds a value of the given capacity from UTF-8 text, truncating
    /// oversized input at a character boundary and zero-padding the rest.
    pub fn new(capacity: usize, s: &[u8]) -> (v: FixedStr)
        requires
            is_valid_utf8(s@),
        ensures
            v@ == zero_padded(s@.take(truncate_len(s@, capacity as int)), capacity as int),
            v@.len() == capacity,
    {
        let n: usize = s.len();
        let k: usize;
        if n <= capacity {
            k = n;
            proof {
                assert(truncate_len(s@, capacity as int) == k);
            }
        } else {
            let mut j: usize = capacity;
            while j > 0 && cont(s[j])
                invariant
                    j <= capacity,
                    capacity < n,
                    n == s@.len(),
                    snap_back(s@, capacity as int) == snap_back(s@, j as int),
                decreases j,
            {
                j = j - 1;
            }
            k = j;
            proof {
                assert(snap_back(s@, j as int) == j);
                assert(truncate_len(s@, capacity as int) == k);
            }
        }
        let mut data: Vec<u8> = Vec::new();
        let mut i: usize = 0;
        while i < k
            invariant
                i <= k,
                k <= s@.len(),
                data@.len() == i,
                forall|j: int| 0 <= j < i ==> data@[j] == s@[j],
            decreases k - i,
        {
            data.push(s[i]);
            i = i + 1;
        }
        while data.len() < capacity
            invariant
                k <= data@.len(),
                data@.len() <= capacity,
                forall|j: int| 0 <= j < k ==> data@[j] == s@[j],
                forall|j: int| k <= j < data@.len() ==> data@[j] == 0,
            decreases capacity - data@.len(),
        {
            data.push(0u8);
        }
        proof {
            assert(data@ =~= zero_padded(s@.take(k as int), capacity as int));
        }
        FixedStr { data }
    }

    /// Fallible construction from a byte slice: the input must have exactly
    /// the requested capacity, and is taken as the buffer unchanged.
    pub fn from_bytes(capacity: usize, b: &[u8]) -> (r: Result<FixedStr, FixedStrError>)
        ensures
            r is Ok <==> b@.len() == capacity,
            match r {
                Ok(v) => v@ == b@,
                Err(e) => e == FixedStrError::LengthMismatch,
            },
    {
        if b.len() == capacity {
            Ok(FixedStr { data: slice_to_vec(b) })
        } else {
            Err(FixedStrError::LengthMismatch)
        }
    }

    /// The value whose buffer is exactly `b`; its capacity is `b.len()`.
    pub fn from_exact(b: &[u8]) -> (v: FixedStr)
        ensures
            v@ == b@,
    {
        FixedStr { data: slice_to_vec(b) }
    }

    /// Views the buffer as UTF-8 text with the zero padding dropped, or
    /// fails when the buffer does not hold valid UTF-8.
    pub fn try_as_text(&self) -> (r: Result<&[u8], FixedStrError>)
        ensures
            r is Ok <==> is_valid_utf8(self@),
            match r {
                Ok(t) => t@ == trimmed(self@),
                Err(e) => e == FixedStrError::InvalidUtf8,
            },
    {
        if check_utf8(self.data.as_slice()) {
            let k = self.len();
            proof {
                lemma_effective_len_bounds(self@);
            }
            Ok(slice_subrange(self.data.as_slice(), 0, k))
        } else {
            Err(FixedStrError::InvalidUtf8)
        }
    }
}

} // verus!
