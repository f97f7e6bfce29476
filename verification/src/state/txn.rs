use vstd::prelude::*;

use crate::codec::{
    bytes_field, fits_u32, le_i64, lemma_bytes_field_unique, lemma_le_i64_injective,
    lemma_split_unique, push_i64, read_byte_field, read_i64, read_u8, starts_with_field,
};
use crate::error::XrefError;

verus! {

/// A referral transaction as the router forwards it.
pub struct TxnData {
    /// The purchase transaction, base64-encoded.
    pub b64txn: Vec<u8>,
    /// The merchant's signature over the agreed message.
    pub merchant_signature: Vec<u8>,
    /// The user's signature over the agreed message.
    pub user_signature: Vec<u8>,
    /// Cost of the purchase, in dollars.
    pub cost: u8,
    /// The timestamp the merchant and the user agreed on.
    pub mu_timestamp: i64,
    /// The referrer's signature over the referral message.
    pub referrer_signature: Vec<u8>,
    /// When the referral happened.
    pub referrer_timestamp: i64,
}

/// The transaction's byte strings fit their length prefixes.
pub open spec fn txn_data_encodable(t: TxnData) -> bool {
    &&& fits_u32(t.b64txn@)
    &&& fits_u32(t.merchant_signature@)
    &&& fits_u32(t.user_signature@)
    &&& fits_u32(t.referrer_signature@)
}

/// The bytes after the user signature: cost, agreed timestamp, referrer signature,
/// referral timestamp.
pub open spec fn txn_tail_bytes(t: TxnData) -> Seq<u8> {
    seq![t.cost] + (le_i64(t.mu_timestamp) + (bytes_field(t.referrer_signature@) + le_i64(
        t.referrer_timestamp,
    )))
}

/// A transaction's bytes, its fields in declaration order.
pub open spec fn txn_data_bytes(t: TxnData) -> Seq<u8> {
    bytes_field(t.b64txn@) + (bytes_field(t.merchant_signature@) + (bytes_field(
        t.user_signature@,
    ) + txn_tail_bytes(t)))
}

/// Two transactions with the same fields, each field taken by its view.
pub open spec fn same_txn_data(a: TxnData, b: TxnData) -> bool {
    &&& a.b64txn@ == b.b64txn@
    &&& a.merchant_signature@ == b.merchant_signature@
    &&& a.user_signature@ == b.user_signature@
    &&& a.cost == b.cost
    &&& a.mu_timestamp == b.mu_timestamp
    &&& a.referrer_signature@ == b.referrer_signature@
    &&& a.referrer_timestamp == b.referrer_timestamp
}

/// Law: distinct transactions have distinct bytes.
pub proof fn lemma_txn_data_bytes_injective(a: TxnData, b: TxnData)
    requires
        txn_data_encodable(a),
        txn_data_encodable(b),
        txn_data_bytes(a) == txn_data_bytes(b),
    ensures
        same_txn_data(a, b),
{
    lemma_bytes_field_unique(
        a.b64txn@,
        bytes_field(a.merchant_signature@) + (bytes_field(a.user_signature@) + txn_tail_bytes(a)),
        b.b64txn@,
        bytes_field(b.merchant_signature@) + (bytes_field(b.user_signature@) + txn_tail_bytes(b)),
    );
    lemma_bytes_field_unique(
        a.merchant_signature@,
        bytes_field(a.user_signature@) + txn_tail_bytes(a),
        b.merchant_signature@,
        bytes_field(b.user_signature@) + txn_tail_bytes(b),
    );
    lemma_bytes_field_unique(
        a.user_signature@,
        txn_tail_bytes(a),
        b.user_signature@,
        txn_tail_bytes(b),
    );
    let ra = le_i64(a.mu_timestamp) + (bytes_field(a.referrer_signature@) + le_i64(
        a.referrer_timestamp,
    ));
    let rb = le_i64(b.mu_timestamp) + (bytes_field(b.referrer_signature@) + le_i64(
        b.referrer_timestamp,
    ));
    lemma_split_unique(seq![a.cost], ra, seq![b.cost], rb);
    assert(seq![a.cost][0] == seq![b.cost][0]);
    lemma_split_unique(
        le_i64(a.mu_timestamp),
        bytes_field(a.referrer_signature@) + le_i64(a.referrer_timestamp),
        le_i64(b.mu_timestamp),
        bytes_field(b.referrer_signature@) + le_i64(b.referrer_timestamp),
    );
    lemma_le_i64_injective(a.mu_timestamp, b.mu_timestamp);
    lemma_bytes_field_unique(
        a.referrer_signature@,
        le_i64(a.referrer_timestamp),
        b.referrer_signature@,
        le_i64(b.referrer_timestamp),
    );
    lemma_le_i64_injective(a.referrer_timestamp, b.referrer_timestamp);
}

/// Reads a transaction from its bytes. It succeeds exactly when the bytes are the
/// encoding of some transaction, and then returns it; otherwise the error is
/// `BorshIoError`.
pub fn decode_txn_data(data: &[u8]) -> (r: Result<TxnData, XrefError>)
    ensures
        r matches Ok(t) ==> txn_data_encodable(t) && txn_data_bytes(t) == data@,
        r matches Err(e) ==> e == XrefError::BorshIoError && forall|t: TxnData|
            txn_data_encodable(t) ==> #[trigger] txn_data_bytes(t) != data@,
{
    let ghost d = data@;
    assert(d.skip(0) =~= d);
    let (b64txn, p1) = match read_byte_field(data, 0) {
        Some(x) => x,
        None => {
            assert forall|t: TxnData| txn_data_encodable(t) implies #[trigger] txn_data_bytes(t)
                != d by {
                if txn_data_bytes(t) == d {
                    assert(starts_with_field(
                        d.skip(0),
                        t.b64txn@,
                        bytes_field(t.merchant_signature@) + (bytes_field(t.user_signature@)
                            + txn_tail_bytes(t)),
                    ));
                }
            }
            return Err(XrefError::BorshIoError);
        },
    };
    assert forall|t: TxnData| txn_data_encodable(t) && #[trigger] txn_data_bytes(t) == d implies t.b64txn@
        == b64txn@ && d.skip(p1 as int) == bytes_field(t.merchant_signature@) + (bytes_field(
        t.user_signature@,
    ) + txn_tail_bytes(t)) by {
        lemma_bytes_field_unique(
            t.b64txn@,
            bytes_field(t.merchant_signature@) + (bytes_field(t.user_signature@) + txn_tail_bytes(
                t,
            )),
            b64txn@,
            d.skip(p1 as int),
        );
    }
    let (merchant_signature, p2) = match read_byte_field(data, p1) {
        Some(x) => x,
        None => {
            assert forall|t: TxnData| txn_data_encodable(t) implies #[trigger] txn_data_bytes(t)
                != d by {
                if txn_data_bytes(t) == d {
                    assert(starts_with_field(
                        d.skip(p1 as int),
                        t.merchant_signature@,
                        bytes_field(t.user_signature@) + txn_tail_bytes(t),
                    ));
                }
            }
            return Err(XrefError::BorshIoError);
        },
    };
    assert forall|t: TxnData| txn_data_encodable(t) && #[trigger] txn_data_bytes(t) == d implies t.merchant_signature@
        == merchant_signature@ && d.skip(p2 as int) == bytes_field(t.user_signature@)
        + txn_tail_bytes(t) by {
        lemma_bytes_field_unique(
            t.merchant_signature@,
            bytes_field(t.user_signature@) + txn_tail_bytes(t),
            merchant_signature@,
            d.skip(p2 as int),
        );
    }
    let (user_signature, p3) = match read_byte_field(data, p2) {
        Some(x) => x,
        None => {
            assert forall|t: TxnData| txn_data_encodable(t) implies #[trigger] txn_data_bytes(t)
                != d by {
                if txn_data_bytes(t) == d {
                    assert(starts_with_field(
                        d.skip(p2 as int),
                        t.user_signature@,
                        txn_tail_bytes(t),
                    ));
                }
            }
            return Err(XrefError::BorshIoError);
        },
    };
    assert forall|t: TxnData| txn_data_encodable(t) && #[trigger] txn_data_bytes(t) == d implies t.user_signature@
        == user_signature@ && d.skip(p3 as int) == txn_tail_bytes(t) by {
        lemma_bytes_field_unique(
            t.user_signature@,
            txn_tail_bytes(t),
            user_signature@,
            d.skip(p3 as int),
        );
    }
    // The remaining fields: at least 1 + 8 + 4 + 8 bytes.
    if data.len() - p3 < 9 {
        assert forall|t: TxnData| txn_data_encodable(t) implies #[trigger] txn_data_bytes(t) != d by {
            if txn_data_bytes(t) == d {
                assert(txn_tail_bytes(t).len() >= 9);
            }
        }
        return Err(XrefError::BorshIoError);
    }
    let (cost, p4) = match read_u8(data, p3) {
        Some(x) => x,
        None => {
            return Err(XrefError::BorshIoError);
        },
    };
    let (mu_timestamp, p5) = match read_i64(data, p4) {
        Some(x) => x,
        None => {
            return Err(XrefError::BorshIoError);
        },
    };
    let ghost rest5 = d.skip(p5 as int);
    assert(d.skip(p3 as int) =~= seq![cost] + (le_i64(mu_timestamp) + rest5));
    assert forall|t: TxnData| txn_data_encodable(t) && #[trigger] txn_data_bytes(t) == d implies t.cost
        == cost && t.mu_timestamp == mu_timestamp && d.skip(p5 as int) == bytes_field(
        t.referrer_signature@,
    ) + le_i64(t.referrer_timestamp) by {
        let rt = le_i64(t.mu_timestamp) + (bytes_field(t.referrer_signature@) + le_i64(
            t.referrer_timestamp,
        ));
        lemma_split_unique(seq![t.cost], rt, seq![cost], le_i64(mu_timestamp) + rest5);
        assert(seq![t.cost][0] == seq![cost][0]);
        lemma_split_unique(
            le_i64(t.mu_timestamp),
            bytes_field(t.referrer_signature@) + le_i64(t.referrer_timestamp),
            le_i64(mu_timestamp),
            rest5,
        );
        lemma_le_i64_injective(t.mu_timestamp, mu_timestamp);
    }
    let (referrer_signature, p6) = match read_byte_field(data, p5) {
        Some(x) => x,
        None => {
            assert forall|t: TxnData| txn_data_encodable(t) implies #[trigger] txn_data_bytes(t)
                != d by {
                if txn_data_bytes(t) == d {
                    assert(starts_with_field(
                        d.skip(p5 as int),
                        t.referrer_signature@,
                        le_i64(t.referrer_timestamp),
                    ));
                }
            }
            return Err(XrefError::BorshIoError);
        },
    };
    assert forall|t: TxnData| txn_data_encodable(t) && #[trigger] txn_data_bytes(t) == d implies t.referrer_signature@
        == referrer_signature@ && d.skip(p6 as int) == le_i64(t.referrer_timestamp) by {
        lemma_bytes_field_unique(
            t.referrer_signature@,
            le_i64(t.referrer_timestamp),
            referrer_signature@,
            d.skip(p6 as int),
        );
    }
    let (referrer_timestamp, p7) = match read_i64(data, p6) {
        Some(x) => x,
        None => {
            assert forall|t: TxnData| txn_data_encodable(t) implies #[trigger] txn_data_bytes(t)
                != d by {
                if txn_data_bytes(t) == d {
                    assert(le_i64(t.referrer_timestamp).len() == 8);
                }
            }
            return Err(XrefError::BorshIoError);
        },
    };
    if p7 != data.len() {
        assert forall|t: TxnData| txn_data_encodable(t) implies #[trigger] txn_data_bytes(t) != d by {
            if txn_data_bytes(t) == d {
                assert(le_i64(t.referrer_timestamp).len() == 8);
                assert(d.skip(p6 as int).len() == 8);
            }
        }
        return Err(XrefError::BorshIoError);
    }
    let t = TxnData {
        b64txn,
        merchant_signature,
        user_signature,
        cost,
        mu_timestamp,
        referrer_signature,
        referrer_timestamp,
    };
    proof {
        assert(d.skip(p7 as int) =~= Seq::<u8>::empty());
        assert(d.skip(p6 as int) =~= le_i64(referrer_timestamp));
        assert(d =~= txn_data_bytes(t));
    }
    Ok(t)
}

/// The time of the last transaction recorded in a transaction-tracking account.
pub struct Ts {
    pub timestamp: i64,
}

/// A timestamp record's bytes.
pub open spec fn ts_bytes(ts: Ts) -> Seq<u8> {
    le_i64(ts.timestamp)
}

/// Reads a timestamp record. It succeeds exactly when the data is eight bytes long.
pub fn decode_ts(data: &[u8]) -> (r: Result<Ts, XrefError>)
    ensures
        r matches Ok(ts) ==> ts_bytes(ts) == data@,
        r matches Err(e) ==> e == XrefError::BorshIoError && data@.len() != 8,
        r is Ok <==> data@.len() == 8,
{
    if data.len() != 8 {
        return Err(XrefError::BorshIoError);
    }
    match read_i64(data, 0) {
        Some((timestamp, _)) => {
            assert(data@.skip(0) =~= data@);
            assert(data@.skip(8) =~= Seq::<u8>::empty());
            assert(data@ =~= le_i64(timestamp));
            Ok(Ts { timestamp })
        },
        None => Err(XrefError::BorshIoError),
    }
}

/// Writes a timestamp record.
pub fn encode_ts(ts: &Ts) -> (r: Vec<u8>)
    ensures
        r@ == ts_bytes(*ts),
{
    let mut out: Vec<u8> = Vec::new();
    push_i64(&mut out, ts.timestamp);
    assert(out@ =~= ts_bytes(*ts));
    out
}

} // verus!
