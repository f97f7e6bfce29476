use vstd::prelude::*;

use crate::address::Address;
use crate::codec::{
    bytes_field, fits_u32, le_u32, lemma_bytes_field_unique, lemma_le_u32_injective,
    lemma_split_unique, push_bytes, read_byte_field, read_u32, starts_with_field,
};
use crate::error::XrefError;

verus! {

/// A dispute over recorded transactions.
pub struct DisputeDetails {
    /// Addresses of the transaction records the dispute concerns.
    pub txns: Vec<Address>,
    /// The accounts accused of acting maliciously.
    pub malicious_actors: Vec<Address>,
    /// Why the dispute is submitted.
    pub justification: Vec<u8>,
    /// The account submitting the dispute.
    pub reporter: Address,
}

/// The bytes of a list of addresses, one after the other.
pub open spec fn keys_concat(ks: Seq<Address>) -> Seq<u8>
    decreases ks.len(),
{
    if ks.len() == 0 {
        Seq::empty()
    } else {
        keys_concat(ks.drop_last()) + ks.last()@
    }
}

/// A list of addresses: their number as a little-endian `u32`, then their bytes.
pub open spec fn keys_field(ks: Seq<Address>) -> Seq<u8> {
    le_u32(ks.len() as u32) + keys_concat(ks)
}

/// Two lists holding the same addresses in the same order.
pub open spec fn same_keys(a: Seq<Address>, b: Seq<Address>) -> bool {
    a.len() == b.len() && forall|i: int| 0 <= i < a.len() ==> #[trigger] a[i]@ == b[i]@
}

pub proof fn lemma_keys_concat_len(ks: Seq<Address>)
    ensures
        keys_concat(ks).len() == 32 * ks.len(),
    decreases ks.len(),
{
    if ks.len() > 0 {
        lemma_keys_concat_len(ks.drop_last());
    }
}

/// The bytes of a list of addresses hold address `i` at `32 * i .. 32 * i + 32`.
pub proof fn lemma_keys_concat_layout(ks: Seq<Address>)
    ensures
        keys_concat(ks).len() == 32 * ks.len(),
        forall|i: int| 0 <= i < ks.len() ==> #[trigger] keys_concat(ks).subrange(32 * i, 32 * i + 32) == ks[i]@,
    decreases ks.len(),
{
    lemma_keys_concat_len(ks);
    if ks.len() > 0 {
        lemma_keys_concat_layout(ks.drop_last());
        let front = keys_concat(ks.drop_last());
        assert forall|i: int| 0 <= i < ks.len() implies #[trigger] keys_concat(ks).subrange(32 * i, 32 * i + 32) == ks[i]@ by {
            if i < ks.len() - 1 {
                assert(ks.drop_last()[i] == ks[i]);
                assert(keys_concat(ks).subrange(32 * i, 32 * i + 32) =~= front.subrange(32 * i, 32 * i + 32));
            } else {
                assert(keys_concat(ks).subrange(32 * i, 32 * i + 32) =~= ks.last()@);
            }
        }
    }
}

proof fn lemma_keys_concat_injective(a: Seq<Address>, b: Seq<Address>)
    requires
        a.len() == b.len(),
        keys_concat(a) == keys_concat(b),
    ensures
        same_keys(a, b),
    decreases a.len(),
{
    if a.len() > 0 {
        lemma_keys_concat_len(a.drop_last());
        lemma_keys_concat_len(b.drop_last());
        lemma_split_unique(
            keys_concat(a.drop_last()),
            a.last()@,
            keys_concat(b.drop_last()),
            b.last()@,
        );
        lemma_keys_concat_injective(a.drop_last(), b.drop_last());
        assert forall|i: int| 0 <= i < a.len() implies #[trigger] a[i]@ == b[i]@ by {
            if i < a.len() - 1 {
                assert(a.drop_last()[i] == a[i]);
                assert(b.drop_last()[i] == b[i]);
            }
        }
    }
}

/// Lists holding the same addresses have the same bytes.
pub proof fn lemma_keys_concat_same(a: Seq<Address>, b: Seq<Address>)
    requires
        same_keys(a, b),
    ensures
        keys_concat(a) == keys_concat(b),
    decreases a.len(),
{
    if a.len() > 0 {
        assert forall|i: int| 0 <= i < a.drop_last().len() implies #[trigger] a.drop_last()[i]@
            == b.drop_last()[i]@ by {
            assert(a[i]@ == b[i]@);
        }
        lemma_keys_concat_same(a.drop_last(), b.drop_last());
        assert(a[a.len() - 1]@ == b[b.len() - 1]@);
    }
}

/// Law: a list of addresses is read back unchanged, and so is what follows it.
pub proof fn lemma_keys_field_unique(a: Seq<Address>, r1: Seq<u8>, b: Seq<Address>, r2: Seq<u8>)
    requires
        a.len() <= u32::MAX,
        b.len() <= u32::MAX,
        keys_field(a) + r1 == keys_field(b) + r2,
    ensures
        same_keys(a, b),
        r1 == r2,
{
    assert(keys_field(a) + r1 =~= le_u32(a.len() as u32) + (keys_concat(a) + r1));
    assert(keys_field(b) + r2 =~= le_u32(b.len() as u32) + (keys_concat(b) + r2));
    lemma_split_unique(
        le_u32(a.len() as u32),
        keys_concat(a) + r1,
        le_u32(b.len() as u32),
        keys_concat(b) + r2,
    );
    lemma_le_u32_injective(a.len() as u32, b.len() as u32);
    lemma_keys_concat_len(a);
    lemma_keys_concat_len(b);
    lemma_split_unique(keys_concat(a), r1, keys_concat(b), r2);
    lemma_keys_concat_injective(a, b);
}

/// The dispute's lists fit their length prefixes.
pub open spec fn dispute_encodable(dd: DisputeDetails) -> bool {
    &&& dd.txns@.len() <= u32::MAX
    &&& dd.malicious_actors@.len() <= u32::MAX
    &&& fits_u32(dd.justification@)
}

/// A dispute's bytes, its fields in declaration order.
pub open spec fn dispute_bytes(dd: DisputeDetails) -> Seq<u8> {
    keys_field(dd.txns@) + (keys_field(dd.malicious_actors@) + (bytes_field(dd.justification@)
        + dd.reporter@))
}

/// Two disputes with the same fields, each field taken by its view.
pub open spec fn same_dispute(a: DisputeDetails, b: DisputeDetails) -> bool {
    &&& same_keys(a.txns@, b.txns@)
    &&& same_keys(a.malicious_actors@, b.malicious_actors@)
    &&& a.justification@ == b.justification@
    &&& a.reporter@ == b.reporter@
}

/// Law: distinct disputes have distinct bytes.
pub proof fn lemma_dispute_bytes_injective(a: DisputeDetails, b: DisputeDetails)
    requires
        dispute_encodable(a),
        dispute_encodable(b),
        dispute_bytes(a) == dispute_bytes(b),
    ensures
        same_dispute(a, b),
{
    lemma_keys_field_unique(
        a.txns@,
        keys_field(a.malicious_actors@) + (bytes_field(a.justification@) + a.reporter@),
        b.txns@,
        keys_field(b.malicious_actors@) + (bytes_field(b.justification@) + b.reporter@),
    );
    lemma_keys_field_unique(
        a.malicious_actors@,
        bytes_field(a.justification@) + a.reporter@,
        b.malicious_actors@,
        bytes_field(b.justification@) + b.reporter@,
    );
    lemma_bytes_field_unique(a.justification@, a.reporter@, b.justification@, b.reporter@);
}

/// Copies 32 bytes at `pos` into an address.
pub fn read_key(b: &[u8], pos: usize) -> (r: Address)
    requires
        pos + 32 <= b@.len(),
    ensures
        r@ == b@.subrange(pos as int, pos + 32),
{
    let mut k: Address = [0u8; 32];
    let blen = b.len();
    let mut i: usize = 0;
    while i < 32
        invariant
            0 <= i <= 32,
            blen == b@.len(),
            pos + 32 <= b@.len(),
            k@.len() == 32,
            forall|j: int| 0 <= j < i ==> k@[j] == b@[pos + j],
        decreases 32 - i,
    {
        k[i] = b[pos + i];
        i = i + 1;
    }
    assert(k@ =~= b@.subrange(pos as int, pos + 32));
    k
}

/// Reads a list of addresses at `pos`.
pub fn read_keys_field(b: &[u8], pos: usize) -> (r: Option<(Vec<Address>, usize)>)
    requires
        pos <= b@.len(),
    ensures
        match r {
            Some((v, p)) => pos <= p <= b@.len() && v@.len() <= u32::MAX && b@.skip(pos as int)
                == keys_field(v@) + b@.skip(p as int),
            None => forall|ks: Seq<Address>, rest: Seq<u8>|
                ks.len() <= u32::MAX ==> #[trigger] (keys_field(ks) + rest) != b@.skip(pos as int),
        },
{
    let (n, p) = match read_u32(b, pos) {
        Some(x) => x,
        None => {
            assert forall|ks: Seq<Address>, rest: Seq<u8>|
                ks.len() <= u32::MAX implies #[trigger] (keys_field(ks) + rest) != b@.skip(pos as int) by {
                assert((keys_field(ks) + rest).len() >= 4);
            }
            return None;
        },
    };
    let n_usize = n as usize;
    if (b.len() - p) / 32 < n_usize {
        assert forall|ks: Seq<Address>, rest: Seq<u8>|
            ks.len() <= u32::MAX implies #[trigger] (keys_field(ks) + rest) != b@.skip(pos as int) by {
            if keys_field(ks) + rest == b@.skip(pos as int) {
                assert(keys_field(ks) + rest =~= le_u32(ks.len() as u32) + (keys_concat(ks) + rest));
                lemma_split_unique(
                    le_u32(ks.len() as u32),
                    keys_concat(ks) + rest,
                    le_u32(n),
                    b@.skip(p as int),
                );
                lemma_le_u32_injective(ks.len() as u32, n);
                lemma_keys_concat_len(ks);
            }
        }
        return None;
    }
    let mut keys: Vec<Address> = Vec::new();
    let mut q: usize = p;
    let mut i: usize = 0;
    let blen = b.len();
    while i < n_usize
        invariant
            blen == b@.len(),
            p <= b@.len(),
            n_usize == n as usize,
            n_usize * 32 <= b@.len() - p,
            0 <= i <= n_usize,
            keys@.len() == i,
            q == p + 32 * i,
            keys_concat(keys@) == b@.subrange(p as int, q as int),
        decreases n_usize - i,
    {
        assert(q + 32 <= b@.len()) by (nonlinear_arith)
            requires
                q == p + 32 * i,
                i < n_usize,
                n_usize * 32 <= b@.len() - p,
        ;
        let k = read_key(b, q);
        let ghost old_keys = keys@;
        keys.push(k);
        assert(keys@.drop_last() =~= old_keys);
        assert(keys_concat(keys@) =~= b@.subrange(p as int, q + 32));
        q = q + 32;
        i = i + 1;
    }
    proof {
        assert(b@.skip(p as int) =~= b@.subrange(p as int, q as int) + b@.skip(q as int));
        assert(b@.skip(pos as int) =~= keys_field(keys@) + b@.skip(q as int));
    }
    Some((keys, q))
}

/// Reads a dispute from its bytes. It succeeds exactly when the bytes are the
/// encoding of some dispute, and then returns it; otherwise the error is
/// `BorshIoError`.
pub fn decode_dispute(data: &[u8]) -> (r: Result<DisputeDetails, XrefError>)
    ensures
        r matches Ok(dd) ==> dispute_encodable(dd) && dispute_bytes(dd) == data@,
        r matches Err(e) ==> e == XrefError::BorshIoError && forall|dd: DisputeDetails|
            dispute_encodable(dd) ==> #[trigger] dispute_bytes(dd) != data@,
{
    let ghost d = data@;
    assert(d.skip(0) =~= d);
    let (txns, p1) = match read_keys_field(data, 0) {
        Some(x) => x,
        None => {
            assert forall|dd: DisputeDetails| dispute_encodable(dd) implies #[trigger] dispute_bytes(dd)
                != d by {
                let rest = keys_field(dd.malicious_actors@) + (bytes_field(dd.justification@)
                    + dd.reporter@);
                assert(dispute_bytes(dd) == keys_field(dd.txns@) + rest);
            }
            return Err(XrefError::BorshIoError);
        },
    };
    assert forall|dd: DisputeDetails| dispute_encodable(dd) && #[trigger] dispute_bytes(dd) == d implies same_keys(
        dd.txns@,
        txns@,
    ) && d.skip(p1 as int) == keys_field(dd.malicious_actors@) + (bytes_field(dd.justification@)
        + dd.reporter@) by {
        lemma_keys_field_unique(
            dd.txns@,
            keys_field(dd.malicious_actors@) + (bytes_field(dd.justification@) + dd.reporter@),
            txns@,
            d.skip(p1 as int),
        );
    }
    let (malicious_actors, p2) = match read_keys_field(data, p1) {
        Some(x) => x,
        None => {
            assert forall|dd: DisputeDetails| dispute_encodable(dd) implies #[trigger] dispute_bytes(dd)
                != d by {
                if dispute_bytes(dd) == d {
                    assert(keys_field(dd.malicious_actors@) + (bytes_field(dd.justification@)
                        + dd.reporter@) == d.skip(p1 as int));
                }
            }
            return Err(XrefError::BorshIoError);
        },
    };
    assert forall|dd: DisputeDetails| dispute_encodable(dd) && #[trigger] dispute_bytes(dd) == d implies same_keys(
        dd.malicious_actors@,
        malicious_actors@,
    ) && d.skip(p2 as int) == bytes_field(dd.justification@) + dd.reporter@ by {
        lemma_keys_field_unique(
            dd.malicious_actors@,
            bytes_field(dd.justification@) + dd.reporter@,
            malicious_actors@,
            d.skip(p2 as int),
        );
    }
    let (justification, p3) = match read_byte_field(data, p2) {
        Some(x) => x,
        None => {
            assert forall|dd: DisputeDetails| dispute_encodable(dd) implies #[trigger] dispute_bytes(dd)
                != d by {
                if dispute_bytes(dd) == d {
                    assert(starts_with_field(d.skip(p2 as int), dd.justification@, dd.reporter@));
                }
            }
            return Err(XrefError::BorshIoError);
        },
    };
    assert forall|dd: DisputeDetails| dispute_encodable(dd) && #[trigger] dispute_bytes(dd) == d implies dd.justification@
        == justification@ && d.skip(p3 as int) == dd.reporter@ by {
        lemma_bytes_field_unique(
            dd.justification@,
            dd.reporter@,
            justification@,
            d.skip(p3 as int),
        );
    }
    if data.len() - p3 != 32 {
        assert forall|dd: DisputeDetails| dispute_encodable(dd) implies #[trigger] dispute_bytes(dd)
            != d by {
            if dispute_bytes(dd) == d {
                assert(dd.reporter@.len() == 32);
            }
        }
        return Err(XrefError::BorshIoError);
    }
    let reporter = read_key(data, p3);
    let dd = DisputeDetails { txns, malicious_actors, justification, reporter };
    proof {
        assert(d.skip(p3 as int) =~= reporter@);
        assert(d =~= dispute_bytes(dd));
    }
    Ok(dd)
}

/// The bytes of a list of addresses, one after the other.
pub fn concat_keys(ks: &Vec<Address>) -> (r: Vec<u8>)
    ensures
        r@ == keys_concat(ks@),
{
    let mut out: Vec<u8> = Vec::new();
    let mut i: usize = 0;
    while i < ks.len()
        invariant
            0 <= i <= ks@.len(),
            out@ == keys_concat(ks@.subrange(0, i as int)),
        decreases ks@.len() - i,
    {
        let k: &Address = &ks[i];
        push_bytes(&mut out, k.as_slice());
        assert(ks@.subrange(0, i + 1).drop_last() =~= ks@.subrange(0, i as int));
        i = i + 1;
    }
    assert(ks@.subrange(0, ks@.len() as int) =~= ks@);
    out
}

} // verus!
