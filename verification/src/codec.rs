//! The byte layout of the program's instruction and account data: little-endian
//! integers, one byte per `bool`, and `u32`-length-prefixed byte strings.
use vstd::prelude::*;
use vstd::utf8::{decode_utf8_encode_utf8, encode_utf8, encode_utf8_valid_utf8};

use crate::outside::string_from_utf8;

verus! {

// ---------------------------------------------------------------------------
// Field encodings
// ---------------------------------------------------------------------------

/// The four little-endian bytes of a `u32`.
pub open spec fn le_u32(x: u32) -> Seq<u8> {
    seq![
        (x & 0xff) as u8,
        ((x >> 8u32) & 0xff) as u8,
        ((x >> 16u32) & 0xff) as u8,
        ((x >> 24u32) & 0xff) as u8,
    ]
}

/// The eight little-endian bytes of a `u64`.
pub open spec fn le_u64(x: u64) -> Seq<u8> {
    seq![
        (x & 0xff) as u8,
        ((x >> 8u64) & 0xff) as u8,
        ((x >> 16u64) & 0xff) as u8,
        ((x >> 24u64) & 0xff) as u8,
        ((x >> 32u64) & 0xff) as u8,
        ((x >> 40u64) & 0xff) as u8,
        ((x >> 48u64) & 0xff) as u8,
        ((x >> 56u64) & 0xff) as u8,
    ]
}

/// The eight little-endian two's-complement bytes of an `i64`.
pub open spec fn le_i64(x: i64) -> Seq<u8> {
    le_u64(x as u64)
}

/// A byte string whose length fits the `u32` prefix.
pub open spec fn fits_u32(b: Seq<u8>) -> bool {
    b.len() <= u32::MAX
}

/// A byte string: its length as a little-endian `u32`, then its bytes.
pub open spec fn bytes_field(b: Seq<u8>) -> Seq<u8> {
    le_u32(b.len() as u32) + b
}

/// A text: its UTF-8 bytes as a byte string.
pub open spec fn string_field(s: Seq<char>) -> Seq<u8> {
    bytes_field(encode_utf8(s))
}

/// A text whose UTF-8 encoding fits the `u32` prefix.
pub open spec fn string_fits(s: Seq<char>) -> bool {
    fits_u32(encode_utf8(s))
}

/// `false` is the byte 0 and `true` the byte 1.
pub open spec fn bool_byte(b: bool) -> u8 {
    if b {
        1
    } else {
        0
    }
}

/// `s` begins with the byte string `x` and continues with `rest`.
pub open spec fn starts_with_field(s: Seq<u8>, x: Seq<u8>, rest: Seq<u8>) -> bool {
    fits_u32(x) && s == bytes_field(x) + rest
}

/// `s` begins with the text `t` and continues with `rest`.
pub open spec fn starts_with_string(s: Seq<u8>, t: Seq<char>, rest: Seq<u8>) -> bool {
    string_fits(t) && s == string_field(t) + rest
}

// ---------------------------------------------------------------------------
// Lemmas on the encodings
// ---------------------------------------------------------------------------

proof fn lemma_u32_from_bytes(a0: u8, a1: u8, a2: u8, a3: u8, v: u32)
    requires
        v == (a0 as u32) | ((a1 as u32) << 8u32) | ((a2 as u32) << 16u32) | ((a3 as u32)
            << 24u32),
    ensures
        le_u32(v) == seq![a0, a1, a2, a3],
{
    assert((v & 0xff) as u8 == a0 && ((v >> 8u32) & 0xff) as u8 == a1 && ((v >> 16u32)
        & 0xff) as u8 == a2 && ((v >> 24u32) & 0xff) as u8 == a3) by (bit_vector)
        requires
            v == (a0 as u32) | ((a1 as u32) << 8u32) | ((a2 as u32) << 16u32) | ((a3 as u32)
                << 24u32),
    ;
    assert(le_u32(v) =~= seq![a0, a1, a2, a3]);
}

/// Law: distinct `u32` values have distinct encodings.
pub proof fn lemma_le_u32_injective(x: u32, y: u32)
    requires
        le_u32(x) == le_u32(y),
    ensures
        x == y,
{
    assert(le_u32(x)[0] == le_u32(y)[0]);
    assert(le_u32(x)[1] == le_u32(y)[1]);
    assert(le_u32(x)[2] == le_u32(y)[2]);
    assert(le_u32(x)[3] == le_u32(y)[3]);
    assert(x == y) by (bit_vector)
        requires
            (x & 0xff) as u8 == (y & 0xff) as u8,
            ((x >> 8u32) & 0xff) as u8 == ((y >> 8u32) & 0xff) as u8,
            ((x >> 16u32) & 0xff) as u8 == ((y >> 16u32) & 0xff) as u8,
            ((x >> 24u32) & 0xff) as u8 == ((y >> 24u32) & 0xff) as u8,
    ;
}

proof fn lemma_u64_from_bytes(
    a0: u8,
    a1: u8,
    a2: u8,
    a3: u8,
    a4: u8,
    a5: u8,
    a6: u8,
    a7: u8,
    v: u64,
)
    requires
        v == (a0 as u64) | ((a1 as u64) << 8u64) | ((a2 as u64) << 16u64) | ((a3 as u64)
            << 24u64) | ((a4 as u64) << 32u64) | ((a5 as u64) << 40u64) | ((a6 as u64)
            << 48u64) | ((a7 as u64) << 56u64),
    ensures
        le_u64(v) == seq![a0, a1, a2, a3, a4, a5, a6, a7],
{
    assert((v & 0xff) as u8 == a0 && ((v >> 8u64) & 0xff) as u8 == a1 && ((v >> 16u64)
        & 0xff) as u8 == a2 && ((v >> 24u64) & 0xff) as u8 == a3 && ((v >> 32u64) & 0xff) as u8
        == a4 && ((v >> 40u64) & 0xff) as u8 == a5 && ((v >> 48u64) & 0xff) as u8 == a6 && ((v
        >> 56u64) & 0xff) as u8 == a7) by (bit_vector)
        requires
            v == (a0 as u64) | ((a1 as u64) << 8u64) | ((a2 as u64) << 16u64) | ((a3 as u64)
                << 24u64) | ((a4 as u64) << 32u64) | ((a5 as u64) << 40u64) | ((a6 as u64)
                << 48u64) | ((a7 as u64) << 56u64),
    ;
    assert(le_u64(v) =~= seq![a0, a1, a2, a3, a4, a5, a6, a7]);
}

/// Law: distinct `u64` values have distinct encodings.
pub proof fn lemma_le_u64_injective(x: u64, y: u64)
    requires
        le_u64(x) == le_u64(y),
    ensures
        x == y,
{
    assert(le_u64(x)[0] == le_u64(y)[0]);
    assert(le_u64(x)[1] == le_u64(y)[1]);
    assert(le_u64(x)[2] == le_u64(y)[2]);
    assert(le_u64(x)[3] == le_u64(y)[3]);
    assert(le_u64(x)[4] == le_u64(y)[4]);
    assert(le_u64(x)[5] == le_u64(y)[5]);
    assert(le_u64(x)[6] == le_u64(y)[6]);
    assert(le_u64(x)[7] == le_u64(y)[7]);
    assert(x == y) by (bit_vector)
        requires
            (x & 0xff) as u8 == (y & 0xff) as u8,
            ((x >> 8u64) & 0xff) as u8 == ((y >> 8u64) & 0xff) as u8,
            ((x >> 16u64) & 0xff) as u8 == ((y >> 16u64) & 0xff) as u8,
            ((x >> 24u64) & 0xff) as u8 == ((y >> 24u64) & 0xff) as u8,
            ((x >> 32u64) & 0xff) as u8 == ((y >> 32u64) & 0xff) as u8,
            ((x >> 40u64) & 0xff) as u8 == ((y >> 40u64) & 0xff) as u8,
            ((x >> 48u64) & 0xff) as u8 == ((y >> 48u64) & 0xff) as u8,
            ((x >> 56u64) & 0xff) as u8 == ((y >> 56u64) & 0xff) as u8,
    ;
}

/// Law: distinct `i64` values have distinct encodings.
pub proof fn lemma_le_i64_injective(x: i64, y: i64)
    requires
        le_i64(x) == le_i64(y),
    ensures
        x == y,
{
    lemma_le_u64_injective(x as u64, y as u64);
    assert(x == y) by (bit_vector)
        requires
            x as u64 == y as u64,
    ;
}

/// Two concatenations with equally long first parts split the same way.
pub proof fn lemma_split_unique(a: Seq<u8>, r1: Seq<u8>, b: Seq<u8>, r2: Seq<u8>)
    requires
        a + r1 == b + r2,
        a.len() == b.len(),
    ensures
        a == b,
        r1 == r2,
{
    assert(a =~= (a + r1).subrange(0, a.len() as int));
    assert(b =~= (b + r2).subrange(0, b.len() as int));
    assert(r1 =~= (a + r1).subrange(a.len() as int, (a + r1).len() as int));
    assert(r2 =~= (b + r2).subrange(b.len() as int, (b + r2).len() as int));
}

/// Law: a byte string is read back unchanged, and so is what follows it.
pub proof fn lemma_bytes_field_unique(x: Seq<u8>, r1: Seq<u8>, y: Seq<u8>, r2: Seq<u8>)
    requires
        fits_u32(x),
        fits_u32(y),
        bytes_field(x) + r1 == bytes_field(y) + r2,
    ensures
        x == y,
        r1 == r2,
{
    assert(bytes_field(x) + r1 =~= le_u32(x.len() as u32) + (x + r1));
    assert(bytes_field(y) + r2 =~= le_u32(y.len() as u32) + (y + r2));
    lemma_split_unique(le_u32(x.len() as u32), x + r1, le_u32(y.len() as u32), y + r2);
    lemma_le_u32_injective(x.len() as u32, y.len() as u32);
    lemma_split_unique(x, r1, y, r2);
}

/// Law: a text is read back unchanged, and so is what follows it.
pub proof fn lemma_string_field_unique(x: Seq<char>, r1: Seq<u8>, y: Seq<char>, r2: Seq<u8>)
    requires
        string_fits(x),
        string_fits(y),
        string_field(x) + r1 == string_field(y) + r2,
    ensures
        x == y,
        r1 == r2,
{
    lemma_bytes_field_unique(encode_utf8(x), r1, encode_utf8(y), r2);
    vstd::utf8::encode_utf8_decode_utf8(x);
    vstd::utf8::encode_utf8_decode_utf8(y);
}

// ---------------------------------------------------------------------------
// Reading
// ---------------------------------------------------------------------------

/// Reads one byte at `pos`.
pub fn read_u8(b: &[u8], pos: usize) -> (r: Option<(u8, usize)>)
    requires
        pos <= b@.len(),
    ensures
        match r {
            Some((v, p)) => p == pos + 1 && p <= b@.len() && b@.skip(pos as int) == seq![v]
                + b@.skip(p as int),
            None => pos == b@.len(),
        },
{
    if pos < b.len() {
        let v = b[pos];
        assert(b@.skip(pos as int) =~= seq![v] + b@.skip(pos + 1));
        Some((v, pos + 1))
    } else {
        None
    }
}

/// Reads a little-endian `u32` at `pos`.
pub fn read_u32(b: &[u8], pos: usize) -> (r: Option<(u32, usize)>)
    requires
        pos <= b@.len(),
    ensures
        match r {
            Some((v, p)) => p == pos + 4 && p <= b@.len() && b@.skip(pos as int) == le_u32(v)
                + b@.skip(p as int),
            None => b@.len() - pos < 4,
        },
{
    if b.len() - pos < 4 {
        return None;
    }
    let v: u32 = (b[pos] as u32) | ((b[pos + 1] as u32) << 8u32) | ((b[pos + 2] as u32)
        << 16u32) | ((b[pos + 3] as u32) << 24u32);
    proof {
        lemma_u32_from_bytes(b@[pos as int], b@[pos + 1], b@[pos + 2], b@[pos + 3], v);
        assert(b@.skip(pos as int) =~= le_u32(v) + b@.skip(pos + 4));
    }
    Some((v, pos + 4))
}

/// Reads a little-endian `u64` at `pos`.
pub fn read_u64(b: &[u8], pos: usize) -> (r: Option<(u64, usize)>)
    requires
        pos <= b@.len(),
    ensures
        match r {
            Some((v, p)) => p == pos + 8 && p <= b@.len() && b@.skip(pos as int) == le_u64(v)
                + b@.skip(p as int),
            None => b@.len() - pos < 8,
        },
{
    if b.len() - pos < 8 {
        return None;
    }
    let v: u64 = (b[pos] as u64) | ((b[pos + 1] as u64) << 8u64) | ((b[pos + 2] as u64)
        << 16u64) | ((b[pos + 3] as u64) << 24u64) | ((b[pos + 4] as u64) << 32u64) | ((b[pos
        + 5] as u64) << 40u64) | ((b[pos + 6] as u64) << 48u64) | ((b[pos + 7] as u64) << 56u64);
    proof {
        lemma_u64_from_bytes(
            b@[pos as int],
            b@[pos + 1],
            b@[pos + 2],
            b@[pos + 3],
            b@[pos + 4],
            b@[pos + 5],
            b@[pos + 6],
            b@[pos + 7],
            v,
        );
        assert(b@.skip(pos as int) =~= le_u64(v) + b@.skip(pos + 8));
    }
    Some((v, pos + 8))
}

/// Reads a little-endian two's-complement `i64` at `pos`.
pub fn read_i64(b: &[u8], pos: usize) -> (r: Option<(i64, usize)>)
    requires
        pos <= b@.len(),
    ensures
        match r {
            Some((v, p)) => p == pos + 8 && p <= b@.len() && b@.skip(pos as int) == le_i64(v)
                + b@.skip(p as int),
            None => b@.len() - pos < 8,
        },
{
    match read_u64(b, pos) {
        Some((u, p)) => {
            let v = u as i64;
            assert(v as u64 == u) by (bit_vector)
                requires
                    v == u as i64,
            ;
            Some((v, p))
        },
        None => None,
    }
}

/// Copies `b[start..end]` into a new vector.
pub fn copy_range(b: &[u8], start: usize, end: usize) -> (r: Vec<u8>)
    requires
        start <= end <= b@.len(),
    ensures
        r@ == b@.subrange(start as int, end as int),
{
    let mut out: Vec<u8> = Vec::new();
    let mut i: usize = start;
    while i < end
        invariant
            start <= i <= end <= b@.len(),
            out@ == b@.subrange(start as int, i as int),
        decreases end - i,
    {
        out.push(b[i]);
        assert(out@ =~= b@.subrange(start as int, i + 1));
        i = i + 1;
    }
    out
}

/// Reads a byte string at `pos`: a little-endian `u32` length, then that many bytes.
pub fn read_byte_field(b: &[u8], pos: usize) -> (r: Option<(Vec<u8>, usize)>)
    requires
        pos <= b@.len(),
    ensures
        match r {
            Some((v, p)) => pos <= p <= b@.len() && starts_with_field(
                b@.skip(pos as int),
                v@,
                b@.skip(p as int),
            ),
            None => forall|x: Seq<u8>, rest: Seq<u8>|
                !#[trigger] starts_with_field(b@.skip(pos as int), x, rest),
        },
{
    match read_u32(b, pos) {
        None => {
            assert forall|x: Seq<u8>, rest: Seq<u8>|
                !#[trigger] starts_with_field(b@.skip(pos as int), x, rest) by {
                if starts_with_field(b@.skip(pos as int), x, rest) {
                    assert((bytes_field(x) + rest).len() >= 4);
                }
            }
            None
        },
        Some((n, p)) => {
            let n_usize = n as usize;
            if b.len() - p < n_usize {
                assert forall|x: Seq<u8>, rest: Seq<u8>|
                    !#[trigger] starts_with_field(b@.skip(pos as int), x, rest) by {
                    if starts_with_field(b@.skip(pos as int), x, rest) {
                        assert(bytes_field(x) + rest =~= le_u32(x.len() as u32) + (x + rest));
                        lemma_split_unique(
                            le_u32(x.len() as u32),
                            x + rest,
                            le_u32(n),
                            b@.skip(p as int),
                        );
                        lemma_le_u32_injective(x.len() as u32, n);
                    }
                }
                None
            } else {
                let v = copy_range(b, p, p + n_usize);
                proof {
                    assert(b@.skip(p as int) =~= v@ + b@.skip(p + n_usize));
                    assert(b@.skip(pos as int) =~= bytes_field(v@) + b@.skip(p + n_usize));
                }
                Some((v, p + n_usize))
            }
        },
    }
}

/// Reads a text at `pos`: a byte string that must be valid UTF-8.
pub fn read_string_field(b: &[u8], pos: usize) -> (r: Option<(String, usize)>)
    requires
        pos <= b@.len(),
    ensures
        match r {
            Some((s, p)) => pos <= p <= b@.len() && starts_with_string(
                b@.skip(pos as int),
                s@,
                b@.skip(p as int),
            ),
            None => forall|t: Seq<char>, rest: Seq<u8>|
                !#[trigger] starts_with_string(b@.skip(pos as int), t, rest),
        },
{
    match read_byte_field(b, pos) {
        None => {
            assert forall|t: Seq<char>, rest: Seq<u8>|
                !#[trigger] starts_with_string(b@.skip(pos as int), t, rest) by {
                if starts_with_string(b@.skip(pos as int), t, rest) {
                    assert(starts_with_field(b@.skip(pos as int), encode_utf8(t), rest));
                }
            }
            None
        },
        Some((v, p)) => {
            let ghost vb = v@;
            match string_from_utf8(v) {
                None => {
                    assert forall|t: Seq<char>, rest: Seq<u8>|
                        !#[trigger] starts_with_string(b@.skip(pos as int), t, rest) by {
                        if starts_with_string(b@.skip(pos as int), t, rest) {
                            lemma_bytes_field_unique(
                                encode_utf8(t),
                                rest,
                                vb,
                                b@.skip(p as int),
                            );
                            encode_utf8_valid_utf8(t);
                        }
                    }
                    None
                },
                Some(s) => {
                    proof {
                        decode_utf8_encode_utf8(vb);
                    }
                    Some((s, p))
                },
            }
        },
    }
}

// ---------------------------------------------------------------------------
// Writing
// ---------------------------------------------------------------------------

/// Appends the little-endian bytes of `x`.
pub fn push_u32(out: &mut Vec<u8>, x: u32)
    ensures
        final(out)@ == old(out)@ + le_u32(x),
{
    out.push((x & 0xff) as u8);
    out.push(((x >> 8u32) & 0xff) as u8);
    out.push(((x >> 16u32) & 0xff) as u8);
    out.push(((x >> 24u32) & 0xff) as u8);
    assert(out@ =~= old(out)@ + le_u32(x));
}

/// Appends the little-endian bytes of `x`.
pub fn push_u64(out: &mut Vec<u8>, x: u64)
    ensures
        final(out)@ == old(out)@ + le_u64(x),
{
    out.push((x & 0xff) as u8);
    out.push(((x >> 8u64) & 0xff) as u8);
    out.push(((x >> 16u64) & 0xff) as u8);
    out.push(((x >> 24u64) & 0xff) as u8);
    out.push(((x >> 32u64) & 0xff) as u8);
    out.push(((x >> 40u64) & 0xff) as u8);
    out.push(((x >> 48u64) & 0xff) as u8);
    out.push(((x >> 56u64) & 0xff) as u8);
    assert(out@ =~= old(out)@ + le_u64(x));
}

/// Appends the little-endian two's-complement bytes of `x`.
pub fn push_i64(out: &mut Vec<u8>, x: i64)
    ensures
        final(out)@ == old(out)@ + le_i64(x),
{
    push_u64(out, x as u64);
}

/// Appends the bytes of `b`.
pub fn push_bytes(out: &mut Vec<u8>, b: &[u8])
    ensures
        final(out)@ == old(out)@ + b@,
{
    let mut i: usize = 0;
    while i < b.len()
        invariant
            0 <= i <= b@.len(),
            out@ == old(out)@ + b@.subrange(0, i as int),
        decreases b@.len() - i,
    {
        out.push(b[i]);
        assert(out@ =~= old(out)@ + b@.subrange(0, i + 1));
        i = i + 1;
    }
    assert(b@.subrange(0, b@.len() as int) =~= b@);
}

/// Appends `b` as a byte string.
pub fn push_byte_field(out: &mut Vec<u8>, b: &[u8])
    requires
        fits_u32(b@),
    ensures
        final(out)@ == old(out)@ + bytes_field(b@),
{
    push_u32(out, b.len() as u32);
    push_bytes(out, b);
    assert(out@ =~= old(out)@ + bytes_field(b@));
}

/// Appends `s` as a text.
pub fn push_string_field(out: &mut Vec<u8>, s: &String)
    requires
        string_fits(s@),
    ensures
        final(out)@ == old(out)@ + string_field(s@),
{
    let bytes = s.as_str().as_bytes();
    push_byte_field(out, bytes);
}

} // verus!
