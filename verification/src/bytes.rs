//! Byte-level helpers shared by the derivation and the search backends:
//! big-endian encoding of 64-bit words, splicing a word into a fixed-size
//! buffer, and appending slices to byte vectors.

use vstd::prelude::*;

verus! {

broadcast use vstd::array::group_array_axioms;

/// The eight big-endian bytes of a 64-bit word.
pub open spec fn be64(x: u64) -> Seq<u8> {
    Seq::new(8, |i: int| ((x >> ((56 - 8 * i) as u64)) & 0xff) as u8)
}

/// `base` with the eight bytes starting at `at` replaced by `be64(x)`.
pub open spec fn splice8(base: Seq<u8>, at: int, x: u64) -> Seq<u8> {
    Seq::new(base.len(), |j: int| if at <= j < at + 8 { be64(x)[j - at] } else { base[j] })
}

/// Two distinct words have distinct big-endian encodings.
pub proof fn lemma_be64_injective(x: u64, y: u64)
    requires
        be64(x) == be64(y),
    ensures
        x == y,
{
    assert(be64(x)[0] == ((x >> 56u64) & 0xff) as u8 && be64(y)[0] == ((y >> 56u64) & 0xff) as u8);
    assert(be64(x)[1] == ((x >> 48u64) & 0xff) as u8 && be64(y)[1] == ((y >> 48u64) & 0xff) as u8);
    assert(be64(x)[2] == ((x >> 40u64) & 0xff) as u8 && be64(y)[2] == ((y >> 40u64) & 0xff) as u8);
    assert(be64(x)[3] == ((x >> 32u64) & 0xff) as u8 && be64(y)[3] == ((y >> 32u64) & 0xff) as u8);
    assert(be64(x)[4] == ((x >> 24u64) & 0xff) as u8 && be64(y)[4] == ((y >> 24u64) & 0xff) as u8);
    assert(be64(x)[5] == ((x >> 16u64) & 0xff) as u8 && be64(y)[5] == ((y >> 16u64) & 0xff) as u8);
    assert(be64(x)[6] == ((x >> 8u64) & 0xff) as u8 && be64(y)[6] == ((y >> 8u64) & 0xff) as u8);
    assert(be64(x)[7] == ((x >> 0u64) & 0xff) as u8 && be64(y)[7] == ((y >> 0u64) & 0xff) as u8);
    assert(be64(x)[0] == be64(y)[0]);
    assert(be64(x)[1] == be64(y)[1]);
    assert(be64(x)[2] == be64(y)[2]);
    assert(be64(x)[3] == be64(y)[3]);
    assert(be64(x)[4] == be64(y)[4]);
    assert(be64(x)[5] == be64(y)[5]);
    assert(be64(x)[6] == be64(y)[6]);
    assert(be64(x)[7] == be64(y)[7]);
    assert(x == y) by (bit_vector)
        requires
            ((x >> 56u64) & 0xff) as u8 == ((y >> 56u64) & 0xff) as u8,
            ((x >> 48u64) & 0xff) as u8 == ((y >> 48u64) & 0xff) as u8,
            ((x >> 40u64) & 0xff) as u8 == ((y >> 40u64) & 0xff) as u8,
            ((x >> 32u64) & 0xff) as u8 == ((y >> 32u64) & 0xff) as u8,
            ((x >> 24u64) & 0xff) as u8 == ((y >> 24u64) & 0xff) as u8,
            ((x >> 16u64) & 0xff) as u8 == ((y >> 16u64) & 0xff) as u8,
            ((x >> 8u64) & 0xff) as u8 == ((y >> 8u64) & 0xff) as u8,
            ((x >> 0u64) & 0xff) as u8 == ((y >> 0u64) & 0xff) as u8,
    ;
}

/// Write `be64(x)` into `dst[at..at + 8]`.
pub fn write_be64(dst: &mut [u8; 32], at: usize, x: u64)
    requires
        at + 8 <= 32,
    ensures
        final(dst)@ == splice8(old(dst)@, at as int, x),
{
    let mut i: usize = 0;
    while i < 8
        invariant
            i <= 8,
            at + 8 <= 32,
            dst@.len() == 32,
            forall|j: int| 0 <= j < 32 && !(at <= j < at + i) ==> dst@[j] == old(dst)@[j],
            forall|j: int| at <= j < at + i ==> dst@[j] == be64(x)[j - at],
        decreases 8 - i,
    {
        let sh: u64 = 56 - 8 * (i as u64);
        assert((x >> sh) & 0xff < 256) by (bit_vector);
        let b: u8 = ((x >> sh) & 0xff) as u8;
        assert(b == be64(x)[i as int]);
        dst[at + i] = b;
        i += 1;
    }
    assert(dst@ =~= splice8(old(dst)@, at as int, x));
}

/// The eight big-endian bytes of `x`, as an array.
pub fn be64_bytes(x: u64) -> (r: [u8; 8])
    ensures
        r@ == be64(x),
{
    let mut r: [u8; 8] = [0u8; 8];
    let mut i: usize = 0;
    while i < 8
        invariant
            i <= 8,
            r@.len() == 8,
            forall|j: int| 0 <= j < i ==> r@[j] == be64(x)[j],
        decreases 8 - i,
    {
        let sh: u64 = 56 - 8 * (i as u64);
        assert((x >> sh) & 0xff < 256) by (bit_vector);
        let b: u8 = ((x >> sh) & 0xff) as u8;
        assert(b == be64(x)[i as int]);
        r[i] = b;
        i += 1;
    }
    assert(r@ =~= be64(x));
    r
}

/// Copy `b[lo..hi]` into a fresh vector.
pub fn sub_bytes(b: &[u8], lo: usize, hi: usize) -> (r: Vec<u8>)
    requires
        lo <= hi <= b@.len(),
    ensures
        r@ == b@.subrange(lo as int, hi as int),
{
    let mut r: Vec<u8> = Vec::new();
    let mut i: usize = lo;
    while i < hi
        invariant
            lo <= i <= hi <= b@.len(),
            r@ == b@.subrange(lo as int, i as int),
        decreases hi - i,
    {
        r.push(b[i]);
        assert(b@.subrange(lo as int, (i + 1) as int) =~= b@.subrange(lo as int, i as int).push(
            b@[i as int],
        ));
        i += 1;
    }
    r
}

/// Append all of `src` to `dst`.
pub fn append_bytes(dst: &mut Vec<u8>, src: &[u8])
    ensures
        final(dst)@ == old(dst)@ + src@,
{
    let n = src.len();
    let mut i: usize = 0;
    while i < n
        invariant
            i <= n,
            n == src@.len(),
            dst@ == old(dst)@ + src@.subrange(0, i as int),
        decreases n - i,
    {
        dst.push(src[i]);
        assert(old(dst)@ + src@.subrange(0, (i + 1) as int) =~= (old(dst)@ + src@.subrange(
            0,
            i as int,
        )).push(src@[i as int]));
        i += 1;
    }
    assert(src@.subrange(0, n as int) =~= src@);
}

} // verus!
