//! Small verified helpers over byte and character strings.

use vstd::prelude::*;

verus! {

/// True when `s` ends with `suffix`.
pub open spec fn bytes_end_with(s: Seq<u8>, suffix: Seq<u8>) -> bool {
    s.len() >= suffix.len() && s.subrange(s.len() - suffix.len(), s.len() as int) == suffix
}

/// True when `s` starts with `prefix`.
pub open spec fn chars_start_with(s: Seq<char>, prefix: Seq<char>) -> bool {
    s.len() >= prefix.len() && s.subrange(0, prefix.len() as int) == prefix
}

/// Byte-for-byte equality of two slices.
pub fn bytes_eq(a: &[u8], b: &[u8]) -> (r: bool)
    ensures
        r == (a@ == b@),
{
    if a.len() != b.len() {
        proof {
            assert(a@.len() != b@.len());
        }
        return false;
    }
    let mut i: usize = 0;
    while i < a.len()
        invariant
            i <= a.len(),
            a.len() == b.len(),
            forall|j: int| 0 <= j < i ==> a@[j] == b@[j],
        decreases a.len() - i,
    {
        if a[i] != b[i] {
            return false;
        }
        i += 1;
    }
    proof {
        assert(a@ =~= b@);
    }
    true
}

/// Whether `hay` ends with `suffix`.
pub fn ends_with_bytes(hay: &[u8], suffix: &[u8]) -> (r: bool)
    ensures
        r == bytes_end_with(hay@, suffix@),
{
    if hay.len() < suffix.len() {
        return false;
    }
    let start = hay.len() - suffix.len();
    let mut i: usize = 0;
    while i < suffix.len()
        invariant
            i <= suffix.len(),
            suffix.len() <= hay.len(),
            start == hay.len() - suffix.len(),
            forall|j: int| 0 <= j < i ==> hay@[start + j] == suffix@[j],
        decreases suffix.len() - i,
    {
        if hay[start + i] != suffix[i] {
            proof {
                assert(hay@.subrange(hay@.len() - suffix@.len(), hay@.len() as int)[i as int]
                    != suffix@[i as int]);
            }
            return false;
        }
        i += 1;
    }
    proof {
        assert(hay@.subrange(hay@.len() - suffix@.len(), hay@.len() as int) =~= suffix@);
    }
    true
}

/// A fresh vector holding the same bytes as `src`.
pub fn copy_bytes(src: &[u8]) -> (r: Vec<u8>)
    ensures
        r@ == src@,
{
    let mut out: Vec<u8> = Vec::new();
    let mut i: usize = 0;
    while i < src.len()
        invariant
            i <= src.len(),
            out@ == src@.subrange(0, i as int),
        decreases src.len() - i,
    {
        out.push(src[i]);
        proof {
            assert(out@ =~= src@.subrange(0, i + 1));
        }
        i += 1;
    }
    proof {
        assert(src@.subrange(0, src@.len() as int) =~= src@);
    }
    out
}

} // verus!
