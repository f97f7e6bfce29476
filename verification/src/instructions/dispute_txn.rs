use vstd::prelude::*;

use crate::account::AccountView;
use crate::address::{same_address, Address};
use crate::codec::push_bytes;
use crate::error::XrefError;
use crate::outside::{sha256, sha256_digest};
use crate::state::dispute::{
    concat_keys, decode_dispute, dispute_bytes, dispute_encodable, keys_concat,
    lemma_dispute_bytes_injective, lemma_keys_concat_layout, lemma_keys_concat_same, DisputeDetails,
};

verus! {

/// `data` is the encoding of some dispute.
pub open spec fn is_dispute_bytes(data: Seq<u8>) -> bool {
    exists|dd: DisputeDetails| dispute_encodable(dd) && #[trigger] dispute_bytes(dd) == data
}

/// The dispute that `data` encodes.
pub open spec fn dispute_of(data: Seq<u8>) -> DisputeDetails {
    choose|dd: DisputeDetails| dispute_encodable(dd) && #[trigger] dispute_bytes(dd) == data
}

/// The bytes a dispute is identified by: the accused accounts, the reporter, the
/// justification and the disputed transaction records.
pub open spec fn dispute_identity(dd: DisputeDetails) -> Seq<u8> {
    keys_concat(dd.malicious_actors@) + dd.reporter@ + dd.justification@ + keys_concat(dd.txns@)
}

/// What submitting a dispute does: the instruction data must encode a dispute, and
/// account 0 must be the reporter it names. The result is the hash that identifies
/// the dispute.
pub open spec fn dispute_txn_spec(instruction_data: Seq<u8>, accounts: Seq<AccountView>) -> Result<Seq<u8>, XrefError> {
    if !is_dispute_bytes(instruction_data) {
        Err(XrefError::BorshIoError)
    } else if accounts.len() < 1 {
        Err(XrefError::NotEnoughAccountKeys)
    } else if dispute_of(instruction_data).reporter@ != accounts[0].key@ {
        Err(XrefError::InvalidInstructionData)
    } else {
        Ok(sha256_digest(dispute_identity(dispute_of(instruction_data))))
    }
}

/// Checks a dispute submitted by its reporter and returns the hash that identifies it.
pub fn dispute_txn(program_id: &Address, instruction_data: &[u8], accounts: &[AccountView]) -> (r: Result<Address, XrefError>)
    ensures
        match dispute_txn_spec(instruction_data@, accounts@) {
            Ok(h) => r matches Ok(a) && a@ == h,
            Err(e) => r == Err::<Address, XrefError>(e),
        },
{
    let dispute_details = match decode_dispute(instruction_data) {
        Ok(dd) => dd,
        Err(e) => {
            return Err(e);
        },
    };
    proof {
        lemma_dispute_bytes_injective(dispute_details, dispute_of(instruction_data@));
        let other = dispute_of(instruction_data@);
        lemma_keys_concat_same(dispute_details.malicious_actors@, other.malicious_actors@);
        lemma_keys_concat_same(dispute_details.txns@, other.txns@);
    }
    if accounts.len() < 1 {
        return Err(XrefError::NotEnoughAccountKeys);
    }
    let reporter = &accounts[0];
    if !same_address(&dispute_details.reporter, &reporter.key) {
        return Err(XrefError::InvalidInstructionData);
    }
    let mut combined: Vec<u8> = concat_keys(&dispute_details.malicious_actors);
    push_bytes(&mut combined, dispute_details.reporter.as_slice());
    push_bytes(&mut combined, dispute_details.justification.as_slice());
    let txns = concat_keys(&dispute_details.txns);
    push_bytes(&mut combined, txns.as_slice());
    assert(combined@ =~= dispute_identity(dispute_details));
    Ok(sha256(combined.as_slice()))
}

/// Law: the hash of a dispute covers all of it. A dispute submitted by the reporter it
/// names is identified by the SHA-256 hash of these bytes, one after the other: each
/// accused account, the reporter, the justification, and each disputed transaction
/// record, in order. `identity` is any byte string laid out so.
pub proof fn lemma_dispute_hash_covers_every_field(dd: DisputeDetails, accounts: Seq<AccountView>, identity: Seq<u8>)
    requires
        dispute_encodable(dd),
        accounts.len() >= 1,
        accounts[0].key@ == dd.reporter@,
        ({
            let na: int = dd.malicious_actors@.len() as int;
            let nj: int = dd.justification@.len() as int;
            let nt: int = dd.txns@.len() as int;
            let txns_start = 32 * na + 32 + nj;
            &&& identity.len() == txns_start + 32 * nt
            &&& forall|i: int| 0 <= i < na ==> #[trigger] identity.subrange(32 * i, 32 * i + 32) == dd.malicious_actors@[i]@
            &&& identity.subrange(32 * na, 32 * na + 32) == dd.reporter@
            &&& identity.subrange(32 * na + 32, txns_start) == dd.justification@
            &&& forall|i: int| 0 <= i < nt ==> #[trigger] identity.subrange(txns_start + 32 * i, txns_start + 32 * i + 32) == dd.txns@[i]@
        }),
    ensures
        dispute_txn_spec(dispute_bytes(dd), accounts) == Ok::<Seq<u8>, XrefError>(sha256_digest(identity)),
{
    let other = dispute_of(dispute_bytes(dd));
    assert(is_dispute_bytes(dispute_bytes(dd)));
    lemma_dispute_bytes_injective(dd, other);
    lemma_keys_concat_same(dd.malicious_actors@, other.malicious_actors@);
    lemma_keys_concat_same(dd.txns@, other.txns@);
    let na: int = dd.malicious_actors@.len() as int;
    let nj: int = dd.justification@.len() as int;
    let nt: int = dd.txns@.len() as int;
    let txns_start = 32 * na + 32 + nj;
    let actors = keys_concat(dd.malicious_actors@);
    let txns = keys_concat(dd.txns@);
    lemma_keys_concat_layout(dd.malicious_actors@);
    lemma_keys_concat_layout(dd.txns@);
    let expected = dispute_identity(dd);
    assert(expected == actors + dd.reporter@ + dd.justification@ + txns);
    assert(identity.subrange(0, 32 * na) =~= actors) by {
        assert forall|k: int| 0 <= k < 32 * na implies identity[k] == actors[k] by {
            let i = k / 32;
            assert(0 <= i < na && 32 * i <= k < 32 * i + 32) by (nonlinear_arith)
                requires
                    0 <= k < 32 * na,
                    i == k / 32,
            ;
            assert(identity.subrange(32 * i, 32 * i + 32)[k - 32 * i] == identity[k]);
            assert(actors.subrange(32 * i, 32 * i + 32)[k - 32 * i] == actors[k]);
        }
    }
    assert(identity.subrange(txns_start, identity.len() as int) =~= txns) by {
        assert forall|k: int| 0 <= k < 32 * nt implies identity[txns_start + k] == txns[k] by {
            let i = k / 32;
            assert(0 <= i < nt && 32 * i <= k < 32 * i + 32) by (nonlinear_arith)
                requires
                    0 <= k < 32 * nt,
                    i == k / 32,
            ;
            assert(identity.subrange(txns_start + 32 * i, txns_start + 32 * i + 32)[k - 32 * i] == identity[txns_start + k]);
            assert(txns.subrange(32 * i, 32 * i + 32)[k - 32 * i] == txns[k]);
        }
    }
    assert(identity =~= identity.subrange(0, 32 * na) + identity.subrange(32 * na, 32 * na + 32)
        + identity.subrange(32 * na + 32, txns_start) + identity.subrange(txns_start, identity.len() as int));
    assert(identity == expected);
}

/// Law: when a dispute is refused. Instruction data that encodes no dispute is a
/// decoding error; with no account, accounts are missing; a dispute whose named
/// reporter is not account 0 is refused as invalid instruction data.
pub proof fn lemma_dispute_refusals(instruction_data: Seq<u8>, dd: DisputeDetails, accounts: Seq<AccountView>)
    ensures
        (forall|d: DisputeDetails| dispute_encodable(d) ==> #[trigger] dispute_bytes(d) != instruction_data)
            ==> dispute_txn_spec(instruction_data, accounts) == Err::<Seq<u8>, XrefError>(XrefError::BorshIoError),
        dispute_encodable(dd) && instruction_data == dispute_bytes(dd) && accounts.len() == 0
            ==> dispute_txn_spec(instruction_data, accounts) == Err::<Seq<u8>, XrefError>(XrefError::NotEnoughAccountKeys),
        dispute_encodable(dd) && instruction_data == dispute_bytes(dd) && accounts.len() >= 1
            && accounts[0].key@ != dd.reporter@ ==> dispute_txn_spec(instruction_data, accounts)
            == Err::<Seq<u8>, XrefError>(XrefError::InvalidInstructionData),
{
    if dispute_encodable(dd) && instruction_data == dispute_bytes(dd) {
        assert(is_dispute_bytes(instruction_data));
        lemma_dispute_bytes_injective(dd, dispute_of(instruction_data));
    }
}

} // verus!
