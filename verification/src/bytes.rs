//! Byte-string helpers shared by the routing and header-filter modules.
//!
//! HTTP header names compare case-insensitively, so the comparisons here are
//! phrased over ASCII-lowercased byte sequences.

use vstd::prelude::*;

verus! {

/// A byte, ASCII-lowercased; bytes outside `A`..=`Z` are untouched.
pub open spec fn spec_lower_byte(b: u8) -> u8 {
    if 65 <= b && b <= 90 {
        (b + 32) as u8
    } else {
        b
    }
}

/// A byte string, ASCII-lowercased byte by byte.
pub open spec fn spec_lower(s: Seq<u8>) -> Seq<u8> {
    s.map_values(|b: u8| spec_lower_byte(b))
}

/// ASCII-lowercase one byte.
pub fn lower_byte(b: u8) -> (r: u8)
    ensures
        r == spec_lower_byte(b),
{
    if 65 <= b && b <= 90 {
        b + 32
    } else {
        b
    }
}

/// Whether `a`, ASCII-lowercased, equals `lower` (a byte string that is
/// already lowercase, typically a fixed header name).
pub fn lower_eq(a: &Vec<u8>, lower: &Vec<u8>) -> (r: bool)
    ensures
        r == (spec_lower(a@) == lower@),
{
    if a.len() != lower.len() {
        assert(spec_lower(a@).len() != lower@.len());
        return false;
    }
    let n = a.len();
    let mut i: usize = 0;
    while i < n
        invariant
            n == a.len() == lower.len(),
            0 <= i <= n,
            forall|j: int| 0 <= j < i ==> spec_lower(a@)[j] == lower@[j],
        decreases n - i,
    {
        if lower_byte(a[i]) != lower[i] {
            assert(spec_lower(a@)[i as int] != lower@[i as int]);
            return false;
        }
        i += 1;
    }
    assert(spec_lower(a@) =~= lower@);
    true
}

/// The bytes of `s` from index `a` (inclusive) to `b` (exclusive), as a new
/// vector.
pub fn bytes_range(s: &Vec<u8>, a: usize, b: usize) -> (r: Vec<u8>)
    requires
        a <= b <= s@.len(),
    ensures
        r@ == s@.subrange(a as int, b as int),
{
    let mut r: Vec<u8> = Vec::new();
    assert(r@ =~= s@.subrange(a as int, a as int));
    let mut i: usize = a;
    while i < b
        invariant
            a <= i <= b <= s@.len(),
            r@ == s@.subrange(a as int, i as int),
        decreases b - i,
    {
        r.push(s[i]);
        assert(r@ =~= s@.subrange(a as int, i as int + 1));
        i += 1;
    }
    r
}

/// A copy of a byte string.
pub fn copy_bytes(s: &Vec<u8>) -> (r: Vec<u8>)
    ensures
        r@ == s@,
{
    let r = bytes_range(s, 0, s.len());
    assert(s@.subrange(0, s@.len() as int) =~= s@);
    r
}

/// Appends all of `src` to the end of `dst`.
pub fn append_bytes(dst: &mut Vec<u8>, src: &Vec<u8>)
    ensures
        final(dst)@ == old(dst)@ + src@,
{
    let n = src.len();
    assert(dst@ =~= old(dst)@ + src@.subrange(0, 0));
    let mut i: usize = 0;
    while i < n
        invariant
            n == src.len(),
            0 <= i <= n,
            dst@ == old(dst)@ + src@.subrange(0, i as int),
        decreases n - i,
    {
        dst.push(src[i]);
        assert(dst@ =~= old(dst)@ + src@.subrange(0, i as int + 1));
        i += 1;
    }
    assert(old(dst)@ + src@.subrange(0, n as int) =~= old(dst)@ + src@);
}

} // verus!
