//! A byte-level model of strict UTF-8, together with the truncation and
//! padding arithmetic that the text codec relies on.
//!
//! Validity follows the encoding's shortest-form rules: overlong encodings,
//! surrogate code points and leads beyond `0xF4` are all rejected, exactly as
//! a strict decoder would.

use vstd::prelude::*;

verus! {

/// True of a UTF-8 continuation byte (`10xxxxxx`).
pub open spec fn is_cont_byte(b: u8) -> bool {
    0x80 <= b < 0xC0
}

/// The encoded length that a leading byte announces.
pub open spec fn head_len(b0: u8) -> int {
    if b0 < 0x80 {
        1
    } else if b0 < 0xE0 {
        2
    } else if b0 < 0xF0 {
        3
    } else {
        4
    }
}

/// True when `s` begins with one well-formed character encoding.
///
/// The first byte fixes the sequence length and the admissible range of the
/// second byte; later bytes must be continuation bytes.
pub open spec fn valid_head(s: Seq<u8>) -> bool {
    s.len() > 0 && {
        let b0 = s[0];
        if b0 < 0x80 {
            true
        } else if b0 < 0xC2 {
            false
        } else if b0 < 0xE0 {
            s.len() >= 2 && is_cont_byte(s[1])
        } else if b0 == 0xE0 {
            s.len() >= 3 && 0xA0 <= s[1] < 0xC0 && is_cont_byte(s[2])
        } else if b0 == 0xED {
            s.len() >= 3 && 0x80 <= s[1] < 0xA0 && is_cont_byte(s[2])
        } else if b0 < 0xF0 {
            s.len() >= 3 && is_cont_byte(s[1]) && is_cont_byte(s[2])
        } else if b0 == 0xF0 {
            s.len() >= 4 && 0x90 <= s[1] < 0xC0 && is_cont_byte(s[2]) && is_cont_byte(s[3])
        } else if b0 < 0xF4 {
            s.len() >= 4 && is_cont_byte(s[1]) && is_cont_byte(s[2]) && is_cont_byte(s[3])
        } else if b0 == 0xF4 {
            s.len() >= 4 && 0x80 <= s[1] < 0x90 && is_cont_byte(s[2]) && is_cont_byte(s[3])
        } else {
            false
        }
    }
}

/// Strict UTF-8 validity of a whole byte sequence.
pub open spec fn is_valid_utf8(s: Seq<u8>) -> bool
    decreases s.len(),
{
    s.len() == 0 || (valid_head(s) && is_valid_utf8(s.skip(head_len(s[0]))))
}

/// Executable test for a continuation byte.
pub fn cont(b: u8) -> (r: bool)
    ensures
        r == is_cont_byte(b),
{
    0x80 <= b && b < 0xC0
}

/// Decides strict UTF-8 validity of `s`.
pub fn check_utf8(s: &[u8]) -> (r: bool)
    ensures
        r == is_valid_utf8(s@),
{
    let n: usize = s.len();
    let mut i: usize = 0;
    proof {
        assert(s@.skip(0) =~= s@);
    }
    while i < n
        invariant
            i <= n,
            n == s@.len(),
            is_valid_utf8(s@) == is_valid_utf8(s@.skip(i as int)),
        decreases n - i,
    {
        let ghost tail = s@.skip(i as int);
        proof {
            assert(tail.len() == n - i);
            assert(tail[0] == s@[i as int]);
        }
        let b0 = s[i];
        let rem = n - i;
        let step: usize;
        if b0 < 0x80 {
            step = 1;
        } else if b0 < 0xC2 {
            proof {
                assert(!valid_head(tail));
            }
            return false;
        } else if b0 < 0xE0 {
            if rem < 2 || !cont(s[i + 1]) {
                proof {
                    if rem >= 2 {
                        assert(tail[1] == s@[i + 1]);
                    }
                    assert(!valid_head(tail));
                }
                return false;
            }
            step = 2;
        } else if b0 < 0xF0 {
            if rem < 3 {
                proof {
                    assert(!valid_head(tail));
                }
                return false;
            }
            let b1 = s[i + 1];
            let b2 = s[i + 2];
            let b1_ok: bool = if b0 == 0xE0 {
                0xA0 <= b1 && b1 < 0xC0
            } else if b0 == 0xED {
                0x80 <= b1 && b1 < 0xA0
            } else {
                0x80 <= b1 && b1 < 0xC0
            };
            if !b1_ok || !cont(b2) {
                proof {
                    assert(tail[1] == s@[i + 1]);
                    assert(tail[2] == s@[i + 2]);
                    assert(!valid_head(tail));
                }
                return false;
            }
            proof {
                assert(tail[1] == s@[i + 1]);
                assert(tail[2] == s@[i + 2]);
            }
            step = 3;
        } else if b0 < 0xF5 {
            if rem < 4 {
                proof {
                    assert(!valid_head(tail));
                }
                return false;
            }
            let b1 = s[i + 1];
            let b2 = s[i + 2];
            let b3 = s[i + 3];
            let b1_ok: bool = if b0 == 0xF0 {
                0x90 <= b1 && b1 < 0xC0
            } else if b0 == 0xF4 {
                0x80 <= b1 && b1 < 0x90
            } else {
                0x80 <= b1 && b1 < 0xC0
            };
            if !b1_ok || !cont(b2) || !cont(b3) {
                proof {
                    assert(tail[1] == s@[i + 1]);
                    assert(tail[2] == s@[i + 2]);
                    assert(tail[3] == s@[i + 3]);
                    assert(!valid_head(tail));
                }
                return false;
            }
            proof {
                assert(tail[1] == s@[i + 1]);
                assert(tail[2] == s@[i + 2]);
                assert(tail[3] == s@[i + 3]);
            }
            step = 4;
        } else {
            proof {
                assert(!valid_head(tail));
            }
            return false;
        }
        proof {
            assert(valid_head(tail));
            assert(step == head_len(tail[0]));
            assert(tail.skip(step as int) =~= s@.skip(i + step));
        }
        i = i + step;
    }
    proof {
        assert(s@.skip(n as int) =~= Seq::<u8>::empty());
    }
    true
}

/// The largest character-start position at or before `k`: walking back over
/// continuation bytes until a non-continuation byte (or the start) is found.
pub open spec fn snap_back(s: Seq<u8>, k: int) -> int
    decreases k,
{
    if k <= 0 {
        0
    } else if !is_cont_byte(s[k]) {
        k
    } else {
        snap_back(s, k - 1)
    }
}

/// Where to cut `s` so that at most `n` bytes remain and no character
/// encoding is split: all of `s` when it fits, else the capacity snapped
/// back to a character boundary.
pub open spec fn truncate_len(s: Seq<u8>, n: int) -> int {
    if s.len() <= n {
        s.len() as int
    } else {
        snap_back(s, n)
    }
}

/// `s` extended (or cut) to length `n`, the remainder filled with zero bytes.
pub open spec fn zero_padded(s: Seq<u8>, n: int) -> Seq<u8> {
    Seq::new(n as nat, |i: int| if i < s.len() { s[i] } else { 0u8 })
}

/// The length of the content once trailing zero padding is dropped.
pub open spec fn effective_len(s: Seq<u8>) -> int
    decreases s.len(),
{
    if s.len() == 0 {
        0
    } else if s.last() == 0 {
        effective_len(s.drop_last())
    } else {
        s.len() as int
    }
}

/// The content of the buffer with its trailing zero padding dropped.
pub open spec fn trimmed(s: Seq<u8>) -> Seq<u8> {
    s.take(effective_len(s))
}

pub proof fn lemma_snap_back_bounds(s: Seq<u8>, k: int)
    requires
        0 <= k,
    ensures
        0 <= snap_back(s, k) <= k,
    decreases k,
{
    if k > 0 && is_cont_byte(s[k]) {
        lemma_snap_back_bounds(s, k - 1);
    }
}

/// Everything at or past the effective length is zero padding.
pub proof fn lemma_effective_len_bounds(s: Seq<u8>)
    ensures
        0 <= effective_len(s) <= s.len(),
        forall|i: int| effective_len(s) <= i < s.len() ==> s[i] == 0,
    decreases s.len(),
{
    if s.len() > 0 && s.last() == 0 {
        lemma_effective_len_bounds(s.drop_last());
        assert forall|i: int| effective_len(s) <= i < s.len() implies s[i] == 0 by {
            if i < s.len() - 1 {
                assert(s.drop_last()[i] == s[i]);
            } else {
                assert(s[i] == s.last());
            }
        }
    }
}

/// Padding the trimmed content back to the buffer's length reproduces the
/// buffer exactly.
pub proof fn lemma_zero_padded_trimmed(s: Seq<u8>)
    ensures
        zero_padded(trimmed(s), s.len() as int) == s,
{
    lemma_effective_len_bounds(s);
    assert(zero_padded(trimmed(s), s.len() as int) =~= s);
}

/// Dropping a final zero byte from a valid sequence keeps it valid: a zero
/// byte can only ever encode a whole one-byte character.
proof fn lemma_valid_drop_last_zero(s: Seq<u8>)
    requires
        is_valid_utf8(s),
        s.len() > 0,
        s.last() == 0,
    ensures
        is_valid_utf8(s.drop_last()),
    decreases s.len(),
{
    assert(valid_head(s));
    let h = head_len(s[0]);
    if s.len() == 1 {
        assert(s.drop_last().len() == 0);
    } else {
        if h >= 2 {
            assert(is_cont_byte(s[h - 1]) || s[h - 1] >= 0x80);
        }
        assert(h < s.len());
        let t = s.skip(h);
        assert(is_valid_utf8(t));
        assert(t.len() == s.len() - h);
        assert(t.last() == s.last());
        lemma_valid_drop_last_zero(t);
        let d = s.drop_last();
        assert(forall|j: int| 0 <= j < s.len() - 1 ==> d[j] == s[j]);
        assert(valid_head(d));
        assert(d.skip(h) =~= t.drop_last());
        assert(is_valid_utf8(d));
    }
}

/// Dropping the trailing zero padding of a valid buffer leaves valid text.
pub proof fn lemma_valid_utf8_trimmed(s: Seq<u8>)
    requires
        is_valid_utf8(s),
    ensures
        is_valid_utf8(trimmed(s)),
    decreases s.len(),
{
    if s.len() == 0 {
        assert(trimmed(s) =~= s);
    } else if s.last() != 0 {
        assert(trimmed(s) =~= s);
    } else {
        lemma_valid_drop_last_zero(s);
        lemma_valid_utf8_trimmed(s.drop_last());
        lemma_effective_len_bounds(s.drop_last());
        assert(trimmed(s) =~= trimmed(s.drop_last()));
    }
}

} // verus!
