//! Fixed-width big-endian integers and byte-field helpers used by the envelope codec.
use vstd::prelude::*;

verus! {

/// The big-endian value of four bytes.
pub open spec fn be_u32(b: Seq<u8>) -> u32 {
    ((b[0] as u32) << 24u32) | ((b[1] as u32) << 16u32) | ((b[2] as u32) << 8u32) | (b[3] as u32)
}

/// The big-endian value of eight bytes.
pub open spec fn be_u64(b: Seq<u8>) -> u64 {
    ((b[0] as u64) << 56u64) | ((b[1] as u64) << 48u64) | ((b[2] as u64) << 40u64) | ((b[3] as u64)
        << 32u64) | ((b[4] as u64) << 24u64) | ((b[5] as u64) << 16u64) | ((b[6] as u64) << 8u64)
        | (b[7] as u64)
}

/// The four big-endian bytes of a `u32`.
pub open spec fn u32_be(x: u32) -> Seq<u8> {
    seq![(x >> 24u32) as u8, (x >> 16u32) as u8, (x >> 8u32) as u8, x as u8]
}

/// The eight big-endian bytes of a `u64`.
pub open spec fn u64_be(x: u64) -> Seq<u8> {
    seq![
        (x >> 56u64) as u8,
        (x >> 48u64) as u8,
        (x >> 40u64) as u8,
        (x >> 32u64) as u8,
        (x >> 24u64) as u8,
        (x >> 16u64) as u8,
        (x >> 8u64) as u8,
        x as u8,
    ]
}

/// Reading back the bytes of a `u32` gives the same value.
pub proof fn lemma_u32_round_trip(x: u32)
    ensures
        be_u32(u32_be(x)) == x,
{
    let b = u32_be(x);
    let (b0, b1, b2, b3) = (b[0], b[1], b[2], b[3]);
    assert(b0 == (x >> 24u32) as u8 && b1 == (x >> 16u32) as u8 && b2 == (x >> 8u32) as u8 && b3
        == x as u8);
    assert((((b0 as u32) << 24u32) | ((b1 as u32) << 16u32) | ((b2 as u32) << 8u32) | (b3 as u32))
        == x) by (bit_vector)
        requires
            b0 == (x >> 24u32) as u8,
            b1 == (x >> 16u32) as u8,
            b2 == (x >> 8u32) as u8,
            b3 == x as u8,
    ;
}

/// Reading back the bytes of a `u64` gives the same value.
pub proof fn lemma_u64_round_trip(x: u64)
    ensures
        be_u64(u64_be(x)) == x,
{
    let b = u64_be(x);
    let (b0, b1, b2, b3, b4, b5, b6, b7) = (b[0], b[1], b[2], b[3], b[4], b[5], b[6], b[7]);
    assert(b0 == (x >> 56u64) as u8 && b1 == (x >> 48u64) as u8 && b2 == (x >> 40u64) as u8 && b3
        == (x >> 32u64) as u8 && b4 == (x >> 24u64) as u8 && b5 == (x >> 16u64) as u8 && b6 == (x
        >> 8u64) as u8 && b7 == x as u8);
    assert((((b0 as u64) << 56u64) | ((b1 as u64) << 48u64) | ((b2 as u64) << 40u64) | ((b3 as u64)
        << 32u64) | ((b4 as u64) << 24u64) | ((b5 as u64) << 16u64) | ((b6 as u64) << 8u64) | (b7
        as u64)) == x) by (bit_vector)
        requires
            b0 == (x >> 56u64) as u8,
            b1 == (x >> 48u64) as u8,
            b2 == (x >> 40u64) as u8,
            b3 == (x >> 32u64) as u8,
            b4 == (x >> 24u64) as u8,
            b5 == (x >> 16u64) as u8,
            b6 == (x >> 8u64) as u8,
            b7 == x as u8,
    ;
}

/// Appends the big-endian bytes of `x` to `out`.
pub fn put_u32(out: &mut Vec<u8>, x: u32)
    ensures
        final(out)@ == old(out)@ + u32_be(x),
{
    out.push((x >> 24u32) as u8);
    out.push((x >> 16u32) as u8);
    out.push((x >> 8u32) as u8);
    out.push(x as u8);
    assert(final(out)@ =~= old(out)@ + u32_be(x));
}

/// Appends the big-endian bytes of `x` to `out`.
pub fn put_u64(out: &mut Vec<u8>, x: u64)
    ensures
        final(out)@ == old(out)@ + u64_be(x),
{
    out.push((x >> 56u64) as u8);
    out.push((x >> 48u64) as u8);
    out.push((x >> 40u64) as u8);
    out.push((x >> 32u64) as u8);
    out.push((x >> 24u64) as u8);
    out.push((x >> 16u64) as u8);
    out.push((x >> 8u64) as u8);
    out.push(x as u8);
    assert(final(out)@ =~= old(out)@ + u64_be(x));
}

/// Appends every byte of `src` to `out`.
pub fn put_bytes(out: &mut Vec<u8>, src: &[u8])
    ensures
        final(out)@ == old(out)@ + src@,
{
    let mut i: usize = 0;
    while i < src.len()
        invariant
            i <= src@.len(),
            out@ == old(out)@ + src@.subrange(0, i as int),
        decreases src@.len() - i,
    {
        out.push(src[i]);
        i = i + 1;
        assert(out@ =~= old(out)@ + src@.subrange(0, i as int));
    }
    assert(src@.subrange(0, i as int) =~= src@);
}

/// Whether a field of `len` bytes at `offset` lies inside a buffer of `total` bytes.
pub open spec fn field_fits(total: int, offset: int, len: int) -> bool {
    offset + len <= total
}

/// Reads the big-endian `u32` at `offset`, or `None` when the field does not fit.
pub fn get_u32(b: &[u8], offset: usize) -> (r: Option<u32>)
    ensures
        r is Some <==> field_fits(b@.len() as int, offset as int, 4),
        r matches Some(v) ==> v == be_u32(b@.subrange(offset as int, offset + 4)),
{
    if offset > b.len() || b.len() - offset < 4 {
        return None;
    }
    let v = ((b[offset] as u32) << 24u32) | ((b[offset + 1] as u32) << 16u32) | ((b[offset + 2]
        as u32) << 8u32) | (b[offset + 3] as u32);
    Some(v)
}

/// Reads the big-endian `u64` at `offset`, or `None` when the field does not fit.
pub fn get_u64(b: &[u8], offset: usize) -> (r: Option<u64>)
    ensures
        r is Some <==> field_fits(b@.len() as int, offset as int, 8),
        r matches Some(v) ==> v == be_u64(b@.subrange(offset as int, offset + 8)),
{
    if offset > b.len() || b.len() - offset < 8 {
        return None;
    }
    let v = ((b[offset] as u64) << 56u64) | ((b[offset + 1] as u64) << 48u64) | ((b[offset + 2]
        as u64) << 40u64) | ((b[offset + 3] as u64) << 32u64) | ((b[offset + 4] as u64) << 24u64)
        | ((b[offset + 5] as u64) << 16u64) | ((b[offset + 6] as u64) << 8u64) | (b[offset + 7]
        as u64);
    Some(v)
}

/// Copies the `len` bytes at `offset`, or `None` when the field does not fit.
pub fn get_bytes(b: &[u8], offset: usize, len: usize) -> (r: Option<Vec<u8>>)
    ensures
        r is Some <==> field_fits(b@.len() as int, offset as int, len as int),
        r matches Some(v) ==> v@ == b@.subrange(offset as int, offset + len),
{
    if offset > b.len() || b.len() - offset < len {
        return None;
    }
    let mut v: Vec<u8> = Vec::new();
    let mut i: usize = 0;
    while i < len
        invariant
            i <= len,
            offset + len <= b.len(),
            v@ == b@.subrange(offset as int, offset + i),
        decreases len - i,
    {
        v.push(b[offset + i]);
        i = i + 1;
        assert(v@ =~= b@.subrange(offset as int, offset + i));
    }
    Some(v)
}

/// `bytes` cut or zero-padded to exactly `desired` bytes.
pub open spec fn padded(bytes: Seq<u8>, desired: nat) -> Seq<u8> {
    if bytes.len() >= desired {
        bytes.subrange(0, desired as int)
    } else {
        bytes + Seq::new((desired - bytes.len()) as nat, |i: int| 0u8)
    }
}

/// Cuts `bytes` to `desired` bytes, or pads it with zero bytes up to that length.
pub fn pad_trim(bytes: &[u8], desired: usize) -> (r: Vec<u8>)
    ensures
        r@ == padded(bytes@, desired as nat),
{
    let mut v: Vec<u8> = Vec::new();
    let mut i: usize = 0;
    while i < desired
        invariant
            i <= desired,
            v@.len() == i,
            forall|j: int|
                0 <= j < i ==> v@[j] == (if j < bytes@.len() {
                    bytes@[j]
                } else {
                    0u8
                }),
        decreases desired - i,
    {
        if i < bytes.len() {
            v.push(bytes[i]);
        } else {
            v.push(0u8);
        }
        i = i + 1;
    }
    assert(v@ =~= padded(bytes@, desired as nat));
    v
}

/// Whether `pattern` occurs in `source` starting at position `i`.
pub open spec fn occurs_at(source: Seq<u8>, pattern: Seq<u8>, i: int) -> bool {
    0 <= i && i + pattern.len() <= source.len() && source.subrange(i, i + pattern.len()) == pattern
}

/// Every position at which `pattern` occurs in `source`, in increasing order.
/// An empty pattern occurs at every position from 0 to `source.len()`.
pub fn pattern_at(source: &[u8], pattern: &[u8]) -> (r: Vec<usize>)
    ensures
        forall|k: int| 0 <= k < r@.len() ==> occurs_at(source@, pattern@, r@[k] as int),
        forall|k: int, l: int| 0 <= k < l < r@.len() ==> r@[k] < r@[l],
        forall|i: int|
            0 <= i <= source@.len() && occurs_at(source@, pattern@, i) ==> exists|k: int|
                0 <= k < r@.len() && r@[k] == i,
{
    let mut r: Vec<usize> = Vec::new();
    if pattern.len() > source.len() {
        return r;
    }
    let last = source.len() - pattern.len();
    let mut i: usize = 0;
    loop
        invariant_except_break
            last == source@.len() - pattern@.len(),
            i <= last,
            forall|k: int| 0 <= k < r@.len() ==> occurs_at(source@, pattern@, r@[k] as int),
            forall|k: int| 0 <= k < r@.len() ==> r@[k] < i,
            forall|k: int, l: int| 0 <= k < l < r@.len() ==> r@[k] < r@[l],
            forall|j: int|
                0 <= j < i && occurs_at(source@, pattern@, j) ==> exists|k: int|
                    0 <= k < r@.len() && r@[k] == j,
        ensures
            forall|k: int| 0 <= k < r@.len() ==> occurs_at(source@, pattern@, r@[k] as int),
            forall|k: int, l: int| 0 <= k < l < r@.len() ==> r@[k] < r@[l],
            forall|j: int|
                0 <= j <= source@.len() && occurs_at(source@, pattern@, j) ==> exists|k: int|
                    0 <= k < r@.len() && r@[k] == j,
        decreases last - i,
    {
        let mut j: usize = 0;
        let mut same = true;
        while j < pattern.len()
            invariant
                i <= last,
                last == source.len() - pattern.len(),
                j <= pattern@.len(),
                same <==> forall|t: int| 0 <= t < j ==> source@[i + t] == pattern@[t],
            decreases pattern@.len() - j,
        {
            if source[i + j] != pattern[j] {
                same = false;
            }
            j = j + 1;
        }
        proof {
            if same {
                assert(source@.subrange(i as int, i + pattern@.len()) =~= pattern@);
            } else {
                if occurs_at(source@, pattern@, i as int) {
                    assert forall|t: int| 0 <= t < pattern@.len() implies source@[i + t]
                        == pattern@[t] by {
                        assert(source@.subrange(i as int, i + pattern@.len())[t] == source@[i
                            + t]);
                    }
                }
            }
        }
        let ghost before = r@;
        if same {
            r.push(i);
        }
        assert forall|x: int| 0 <= x <= i && occurs_at(source@, pattern@, x) implies exists|k: int|
            0 <= k < r@.len() && r@[k] == x by {
            if x == i {
                assert(r@[r@.len() - 1] == x);
            } else {
                let k = choose|k: int| 0 <= k < before.len() && before[k] == x;
                assert(r@[k] == x);
            }
        }
        if i == last {
            break;
        }
        i = i + 1;
    }
    r
}

} // verus!
