use vstd::prelude::*;

verus! {

/// The two little-endian bytes of a `u16`.
pub open spec fn le_u16(x: u16) -> Seq<u8> {
    seq![(x & 0xff) as u8, (x >> 8u16) as u8]
}

/// Law: a `u16` is fixed by its two little-endian bytes.
pub proof fn lemma_le_u16_injective(x: u16, y: u16)
    requires
        le_u16(x) == le_u16(y),
    ensures
        x == y,
{
    assert(le_u16(x)[0] == le_u16(y)[0] && le_u16(x)[1] == le_u16(y)[1]);
    assert((x & 0xff) < 256 && (y & 0xff) < 256 && (x >> 8u16) < 256 && (y >> 8u16) < 256) by (bit_vector);
    assert((x & 0xff) == (y & 0xff) && (x >> 8u16) == (y >> 8u16) ==> x == y) by (bit_vector);
}

/// Whether `a[start..end]` holds exactly the bytes of `b`.
pub fn range_eq(a: &[u8], start: usize, end: usize, b: &[u8]) -> (r: bool)
    requires
        start <= end <= a@.len(),
    ensures
        r == (a@.subrange(start as int, end as int) == b@),
{
    if end - start != b.len() {
        return false;
    }
    let mut i: usize = 0;
    while i < b.len()
        invariant
            start <= end <= a@.len(),
            end - start == b@.len(),
            0 <= i <= b@.len(),
            forall|j: int| 0 <= j < i ==> a@[start + j] == b@[j],
        decreases b@.len() - i,
    {
        if a[start + i] != b[i] {
            assert(a@.subrange(start as int, end as int)[i as int] != b@[i as int]);
            return false;
        }
        i = i + 1;
    }
    assert(a@.subrange(start as int, end as int) =~= b@);
    true
}

/// Whether `a[start..end]` holds the little-endian bytes of `x`.
pub fn range_is_le_u16(a: &[u8], start: usize, x: u16) -> (r: bool)
    requires
        start + 2 <= a@.len(),
    ensures
        r == (a@.subrange(start as int, start + 2) == le_u16(x)),
{
    let lo: u8 = (x & 0xff) as u8;
    let hi: u8 = (x >> 8u16) as u8;
    let r = a[start] == lo && a[start + 1] == hi;
    assert(r == (a@.subrange(start as int, start + 2) =~= le_u16(x)));
    r
}

} // verus!
