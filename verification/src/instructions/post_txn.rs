use vstd::prelude::*;

use crate::account::{
    lemma_byte_vecs_deep_view, same_bytes_option, AccountView, CreateAccountPlan,
    CreateAccountSpec,
};
use crate::address::{
    address_bytes, same_address, Address, ED25519_PROGRAM_ID, SYSVAR_INSTRUCTIONS_ID,
};
use crate::bytes::{le_u16, lemma_le_u16_injective, range_eq, range_is_le_u16};
use crate::codec::{bytes_field, le_i64, le_u64, lemma_le_i64_injective, push_bytes, push_i64};
use crate::error::XrefError;
use crate::instructions::create_ad::{ad_of, is_ad_bytes};
use crate::instructions::create_user::{create_user_spec, try_create_user};
use crate::outside::{
    load_instruction_at_checked, program_address_found, sha256, sha256_digest, sysvar_instruction,
    try_find_program_address,
};
use crate::state::ad::{ad_bytes, ad_encodable, decode_ad, lemma_ad_bytes_injective, Ad};
use crate::state::txn::{
    decode_ts, decode_txn_data, encode_ts, lemma_txn_data_bytes_injective, txn_data_bytes,
    txn_data_encodable, Ts, TxnData,
};
use crate::state::user::{
    decode_user, encode_user, lemma_user_bytes_injective, user_bytes, user_encodable, User,
};

verus! {

// ---------------------------------------------------------------------------
// Transaction-tracking accounts
// ---------------------------------------------------------------------------

/// The timestamp whose eight bytes are `data`.
pub open spec fn timestamp_of(data: Seq<u8>) -> i64 {
    choose|t: i64| le_i64(t) == data
}

/// Transactions on the same accounts must be at least this many seconds apart.
pub open spec fn replay_window() -> int {
    300
}

/// The outcome of checking a program-derived account: it must belong to the program
/// and sit at the expected address. When `check_lamports` is set and the account
/// holds lamports, its data must be a timestamp at least 300 seconds before the
/// clock; the timestamp then moves 300 seconds on and the new data is returned.
pub open spec fn pda_check(
    pda: AccountView,
    expected_pda_key: Seq<u8>,
    program_id: Seq<u8>,
    check_lamports: bool,
    clock: Result<i64, XrefError>,
) -> Result<Option<Seq<u8>>, XrefError> {
    if pda.owner@ != program_id {
        Err(XrefError::IncorrectProgramId)
    } else if pda.key@ != expected_pda_key {
        Err(XrefError::InvalidSeeds)
    } else if check_lamports && pda.lamports != 0 {
        if pda.data@.len() != 8 {
            Err(XrefError::BorshIoError)
        } else {
            match clock {
                Err(e) => Err(e),
                Ok(now) => {
                    let ts = timestamp_of(pda.data@);
                    if ts <= now - replay_window() {
                        Ok(Some(le_i64((ts + replay_window()) as i64)))
                    } else {
                        Err(XrefError::InvalidAccountData)
                    }
                },
            }
        }
    } else {
        Ok(None)
    }
}

/// The check runs to completion: where the clock is read, subtracting the window
/// from it does not overflow.
pub open spec fn pda_check_defined(
    pda: AccountView,
    expected_pda_key: Seq<u8>,
    program_id: Seq<u8>,
    check_lamports: bool,
    clock: Result<i64, XrefError>,
) -> bool {
    (pda.owner@ == program_id && pda.key@ == expected_pda_key && check_lamports && pda.lamports
        != 0 && pda.data@.len() == 8 && clock is Ok) ==> clock->Ok_0 >= i64::MIN + replay_window()
}

/// `r` is the outcome `s` describes.
pub open spec fn same_pda_outcome(
    r: Result<Option<Vec<u8>>, XrefError>,
    s: Result<Option<Seq<u8>>, XrefError>,
) -> bool {
    match (r, s) {
        (Ok(a), Ok(b)) => same_bytes_option(a, b),
        (Err(e), Err(f)) => e == f,
        _ => false,
    }
}

/// Checks that `pda` is the program's account at `expected_pda_key`; with
/// `check_lamports`, also that a funded account's recorded transaction is old enough,
/// and returns the account's new data with the timestamp moved on. `clock` is the
/// cluster's clock as the runtime gave it.
pub fn checkpdalamports(
    pda: &AccountView,
    expected_pda_key: &Address,
    program_id: &Address,
    check_lamports: bool,
    clock: &Result<i64, XrefError>,
) -> (r: Result<Option<Vec<u8>>, XrefError>)
    requires
        pda_check_defined(*pda, expected_pda_key@, program_id@, check_lamports, *clock),
    ensures
        same_pda_outcome(r, pda_check(*pda, expected_pda_key@, program_id@, check_lamports, *clock)),
{
    if !same_address(&pda.owner, program_id) {
        return Err(XrefError::IncorrectProgramId);
    } else if !same_address(&pda.key, expected_pda_key) {
        return Err(XrefError::InvalidSeeds);
    } else if check_lamports {
        if pda.lamports != 0 {
            let ts_data = match decode_ts(pda.data.as_slice()) {
                Ok(ts) => ts,
                Err(e) => {
                    return Err(e);
                },
            };
            proof {
                lemma_le_i64_injective(ts_data.timestamp, timestamp_of(pda.data@));
            }
            let current_time = match clock {
                Ok(t) => *t,
                Err(e) => {
                    return Err(*e);
                },
            };
            if ts_data.timestamp <= current_time - 300 {
                let moved = Ts { timestamp: ts_data.timestamp + 300 };
                return Ok(Some(encode_ts(&moved)));
            } else {
                return Err(XrefError::InvalidAccountData);
            }
        }
    }
    Ok(None)
}

/// Law: a passing check on a funded tracking account moves its recorded timestamp on
/// by exactly 300 seconds, to a time no later than the clock. At a fixed clock an
/// account therefore passes a bounded number of checks, one per 300 seconds it lags
/// behind.
pub proof fn lemma_pda_check_advances(
    pda: AccountView,
    expected_pda_key: Seq<u8>,
    program_id: Seq<u8>,
    clock: Result<i64, XrefError>,
)
    requires
        pda_check_defined(pda, expected_pda_key, program_id, true, clock),
        pda_check(pda, expected_pda_key, program_id, true, clock) matches Ok(Some(_)),
    ensures
        ({
            let new_data = pda_check(pda, expected_pda_key, program_id, true, clock)->Ok_0->Some_0;
            &&& timestamp_of(new_data) == timestamp_of(pda.data@) + replay_window()
            &&& timestamp_of(new_data) <= clock->Ok_0
        }),
{
    let t = (timestamp_of(pda.data@) + replay_window()) as i64;
    let new_data = le_i64(t);
    assert(le_i64(t) == new_data);
    lemma_le_i64_injective(timestamp_of(new_data), t);
}

/// Law: the replay window. A funded tracking account of the program, at the expected
/// address, whose data is the timestamp `ts` of its last transaction, passes the check
/// whenever `ts` lies 300 seconds or more before the clock, however long before; the
/// data it is left with is then `ts + 300`. Where `ts` lies less than 300 seconds
/// before the clock (or after it), the account is refused as holding invalid data.
pub proof fn lemma_replay_window_decides(pda: AccountView, program_id: Seq<u8>, ts: i64, now: i64)
    requires
        pda.owner@ == program_id,
        pda.lamports != 0,
        pda.data@ == le_i64(ts),
    ensures
        ts <= now - 300 ==> pda_check(pda, pda.key@, program_id, true, Ok::<i64, XrefError>(now))
            == Ok::<Option<Seq<u8>>, XrefError>(Some(le_i64((ts + 300) as i64))),
        ts > now - 300 ==> pda_check(pda, pda.key@, program_id, true, Ok::<i64, XrefError>(now))
            == Err::<Option<Seq<u8>>, XrefError>(XrefError::InvalidAccountData),
{
    assert(le_i64(ts) == pda.data@);
    lemma_le_i64_injective(timestamp_of(pda.data@), ts);
}

/// Law: the other outcomes of checking a program-derived account. One not owned by
/// the program is refused as belonging to another program; one at another address
/// than expected, for bad seeds. Otherwise, without the timestamp check or for an
/// account without lamports, it passes and nothing is written; a funded account whose
/// data is not eight bytes long fails to decode; and where the clock cannot be read,
/// its error is passed on.
pub proof fn lemma_pda_check_other_outcomes(
    pda: AccountView,
    expected_pda_key: Seq<u8>,
    program_id: Seq<u8>,
    check_lamports: bool,
    clock: Result<i64, XrefError>,
)
    ensures
        ({
            let r = pda_check(pda, expected_pda_key, program_id, check_lamports, clock);
            let in_place = pda.owner@ == program_id && pda.key@ == expected_pda_key;
            &&& pda.owner@ != program_id ==> r == Err::<Option<Seq<u8>>, XrefError>(XrefError::IncorrectProgramId)
            &&& pda.owner@ == program_id && pda.key@ != expected_pda_key ==> r == Err::<Option<Seq<u8>>, XrefError>(XrefError::InvalidSeeds)
            &&& in_place && (!check_lamports || pda.lamports == 0) ==> r == Ok::<Option<Seq<u8>>, XrefError>(None)
            &&& in_place && check_lamports && pda.lamports != 0 && pda.data@.len() != 8 ==> r
                == Err::<Option<Seq<u8>>, XrefError>(XrefError::BorshIoError)
            &&& in_place && check_lamports && pda.lamports != 0 && pda.data@.len() == 8 && clock is Err
                ==> r == Err::<Option<Seq<u8>>, XrefError>(clock->Err_0)
        }),
{
}

// ---------------------------------------------------------------------------
// Layout of the ed25519 signature-verification instruction data
// ---------------------------------------------------------------------------

/// Offset the header announces for the public key.
pub open spec fn exp_public_key_offset() -> u16 {
    16
}

/// Offset the header announces for the signature: the key offset plus the key length
/// (the length taken modulo 2^16, as a `u16` cast does).
pub open spec fn exp_signature_offset(merchant_pubkey: Seq<u8>) -> int {
    16 + (merchant_pubkey.len() as u16)
}

/// Offset the header announces for the message: the signature offset plus the
/// signature length (modulo 2^16).
pub open spec fn exp_message_data_offset(merchant_pubkey: Seq<u8>, merch_sig: Seq<u8>) -> int {
    exp_signature_offset(merchant_pubkey) + (merch_sig.len() as u16)
}

/// The two bytes of `u16::MAX`, which mark "this instruction" as the index.
pub open spec fn current_instruction_marker() -> Seq<u8> {
    seq![0xffu8, 0xffu8]
}

/// The sixteen header bytes carry the expected padding, offsets, sizes and indices.
pub open spec fn ed25519_header_ok(
    data: Seq<u8>,
    merchant_pubkey: Seq<u8>,
    agreed_msg: Seq<u8>,
    merch_sig: Seq<u8>,
) -> bool {
    &&& data[1] == 0
    &&& data.subrange(2, 4) == le_u16(exp_signature_offset(merchant_pubkey) as u16)
    &&& data.subrange(4, 6) == current_instruction_marker()
    &&& data.subrange(6, 8) == le_u16(exp_public_key_offset())
    &&& data.subrange(8, 10) == current_instruction_marker()
    &&& data.subrange(10, 12) == le_u16(
        exp_message_data_offset(merchant_pubkey, merch_sig) as u16,
    )
    &&& data.subrange(12, 14) == le_u16(agreed_msg.len() as u16)
    &&& data.subrange(14, 16) == current_instruction_marker()
}

/// Entry `i` of the data: the key at `16*i .. 16*i+32`, the signature at
/// `48*i .. 48*i+64` and the message from `112*i` to the end match the given ones.
pub open spec fn ed25519_entry_ok(
    data: Seq<u8>,
    i: int,
    pubkey: Seq<u8>,
    msg: Seq<u8>,
    sig: Seq<u8>,
) -> bool {
    &&& 16 * i + 32 <= data.len()
    &&& 48 * i + 64 <= data.len()
    &&& 112 * i <= data.len()
    &&& data.subrange(16 * i, 16 * i + 32) == pubkey
    &&& data.subrange(112 * i, data.len() as int) == msg
    &&& data.subrange(48 * i, 48 * i + 64) == sig
}

/// The check passes when the header and all three entries (merchant, user, referrer) match.
pub open spec fn ed25519_data_accepted(
    data: Seq<u8>,
    merchant_pubkey: Seq<u8>,
    user_pubkey: Seq<u8>,
    referrer_pubkey: Seq<u8>,
    agreed_msg: Seq<u8>,
    ref_msg: Seq<u8>,
    merch_sig: Seq<u8>,
    user_sig: Seq<u8>,
    ref_sig: Seq<u8>,
) -> bool {
    &&& ed25519_header_ok(data, merchant_pubkey, agreed_msg, merch_sig)
    &&& ed25519_entry_ok(data, 0, merchant_pubkey, agreed_msg, merch_sig)
    &&& ed25519_entry_ok(data, 1, user_pubkey, agreed_msg, user_sig)
    &&& ed25519_entry_ok(data, 2, referrer_pubkey, ref_msg, ref_sig)
}

/// The inputs on which the check runs to completion: the offsets fit in a `u16`, the
/// agreed message length fits in a `u16`, and every entry that is reached lies
/// within `data`.
pub open spec fn ed25519_check_defined(
    data: Seq<u8>,
    merchant_pubkey: Seq<u8>,
    user_pubkey: Seq<u8>,
    agreed_msg: Seq<u8>,
    merch_sig: Seq<u8>,
    user_sig: Seq<u8>,
) -> bool {
    &&& exp_signature_offset(merchant_pubkey) <= u16::MAX
    &&& exp_message_data_offset(merchant_pubkey, merch_sig) <= u16::MAX
    &&& agreed_msg.len() <= u16::MAX
    &&& data.len() >= 64
    &&& (ed25519_header_ok(data, merchant_pubkey, agreed_msg, merch_sig) && ed25519_entry_ok(
        data,
        0,
        merchant_pubkey,
        agreed_msg,
        merch_sig,
    )) ==> data.len() >= 112
    &&& (ed25519_header_ok(data, merchant_pubkey, agreed_msg, merch_sig) && ed25519_entry_ok(
        data,
        0,
        merchant_pubkey,
        agreed_msg,
        merch_sig,
    ) && ed25519_entry_ok(data, 1, user_pubkey, agreed_msg, user_sig)) ==> data.len() >= 224
}

/// Whether the header carries the expected values.
fn ed25519_header_matches(data: &[u8], merchant_pubkey: &[u8], agreed_msg: &[u8], merch_sig: &[u8]) -> (r: bool)
    requires
        data@.len() >= 16,
        exp_signature_offset(merchant_pubkey@) <= u16::MAX,
        exp_message_data_offset(merchant_pubkey@, merch_sig@) <= u16::MAX,
        agreed_msg@.len() <= u16::MAX,
    ensures
        r == ed25519_header_ok(data@, merchant_pubkey@, agreed_msg@, merch_sig@),
{
    let exp_public_key_offset: u16 = 16;
    let exp_signature_offset: u16 = exp_public_key_offset + merchant_pubkey.len() as u16;
    let exp_message_data_offset: u16 = exp_signature_offset + merch_sig.len() as u16;
    let exp_message_data_size: u16 = agreed_msg.len() as u16;
    let header_ok = data[1] == 0 && range_is_le_u16(data, 2, exp_signature_offset)
        && data[4] == 0xff && data[5] == 0xff && range_is_le_u16(data, 6, exp_public_key_offset)
        && data[8] == 0xff && data[9] == 0xff && range_is_le_u16(data, 10, exp_message_data_offset)
        && range_is_le_u16(data, 12, exp_message_data_size) && data[14] == 0xff && data[15] == 0xff;
    proof {
        let d = data@;
        assert(d.subrange(4, 6) =~= seq![d[4], d[5]]);
        assert(d.subrange(8, 10) =~= seq![d[8], d[9]]);
        assert(d.subrange(14, 16) =~= seq![d[14], d[15]]);
    }
    header_ok
}

/// Whether entry `i` lies within the data and matches the given key, message and signature.
fn ed25519_entry_matches(data: &[u8], i: usize, pubkey: &[u8], msg: &[u8], sig: &[u8]) -> (r: bool)
    requires
        i < 3,
    ensures
        r == ed25519_entry_ok(data@, i as int, pubkey@, msg@, sig@),
{
    let pk_start: usize = 16 * i;
    let sig_start: usize = 48 * i;
    let msg_start: usize = 112 * i;
    if data.len() < pk_start + 32 || data.len() < sig_start + 64 || data.len() < msg_start {
        return false;
    }
    range_eq(data, pk_start, pk_start + 32, pubkey) && range_eq(data, msg_start, data.len(), msg)
        && range_eq(data, sig_start, sig_start + 64, sig)
}

/// Whether checking the ed25519 instruction data runs to completion on these inputs.
pub fn ed25519_check_is_defined(
    data: &[u8],
    merchant_pubkey: &[u8],
    user_pubkey: &[u8],
    agreed_msg: &[u8],
    merch_sig: &[u8],
    user_sig: &[u8],
) -> (r: bool)
    ensures
        r == ed25519_check_defined(data@, merchant_pubkey@, user_pubkey@, agreed_msg@, merch_sig@, user_sig@),
{
    let sig_offset: u32 = 16 + (merchant_pubkey.len() as u16) as u32;
    if sig_offset > 0xffff {
        return false;
    }
    let msg_offset: u32 = sig_offset + (merch_sig.len() as u16) as u32;
    if msg_offset > 0xffff || agreed_msg.len() > 0xffff || data.len() < 64 {
        return false;
    }
    let header_ok = ed25519_header_matches(data, merchant_pubkey, agreed_msg, merch_sig);
    let first_ok = header_ok && ed25519_entry_matches(data, 0, merchant_pubkey, agreed_msg, merch_sig);
    if first_ok && data.len() < 112 {
        return false;
    }
    if first_ok && ed25519_entry_matches(data, 1, user_pubkey, agreed_msg, user_sig) && data.len() < 224 {
        return false;
    }
    true
}

/// Checks the data of the ed25519 signature-verification instruction against the
/// keys, messages and signatures of the merchant, the user and the referrer.
/// Every mismatch is `InvalidInstructionData`.
pub fn check_ed25519_data(
    data: &[u8],
    merchant_pubkey: &[u8],
    user_pubkey: &[u8],
    referrer_pubkey: &[u8],
    agreed_msg: &[u8],
    ref_msg: &[u8],
    merch_sig: &[u8],
    user_sig: &[u8],
    ref_sig: &[u8],
) -> (r: Result<(), XrefError>)
    requires
        ed25519_check_defined(
            data@,
            merchant_pubkey@,
            user_pubkey@,
            agreed_msg@,
            merch_sig@,
            user_sig@,
        ),
    ensures
        r is Ok <==> ed25519_data_accepted(
            data@,
            merchant_pubkey@,
            user_pubkey@,
            referrer_pubkey@,
            agreed_msg@,
            ref_msg@,
            merch_sig@,
            user_sig@,
            ref_sig@,
        ),
        r matches Err(e) ==> e == XrefError::InvalidInstructionData,
{
    let header_ok = ed25519_header_matches(data, merchant_pubkey, agreed_msg, merch_sig);
    let mut i: usize = 0;
    while i < 3
        invariant
            0 <= i <= 3,
            ed25519_check_defined(
                data@,
                merchant_pubkey@,
                user_pubkey@,
                agreed_msg@,
                merch_sig@,
                user_sig@,
            ),
            header_ok == ed25519_header_ok(data@, merchant_pubkey@, agreed_msg@, merch_sig@),
            i > 0 ==> header_ok,
            i > 0 ==> ed25519_entry_ok(data@, 0, merchant_pubkey@, agreed_msg@, merch_sig@),
            i > 1 ==> ed25519_entry_ok(data@, 1, user_pubkey@, agreed_msg@, user_sig@),
            i > 2 ==> ed25519_entry_ok(data@, 2, referrer_pubkey@, ref_msg@, ref_sig@),
        decreases 3 - i,
    {
        if !header_ok {
            return Err(XrefError::InvalidInstructionData);
        }
        let entry_ok = if i == 0 {
            ed25519_entry_matches(data, i, merchant_pubkey, agreed_msg, merch_sig)
        } else if i == 1 {
            ed25519_entry_matches(data, i, user_pubkey, agreed_msg, user_sig)
        } else {
            ed25519_entry_matches(data, i, referrer_pubkey, ref_msg, ref_sig)
        };
        if !entry_ok {
            return Err(XrefError::InvalidInstructionData);
        }
        i = i + 1;
    }
    Ok(())
}

/// Law: no input passes the check. The merchant entry asks for the whole of `data`
/// to be the agreed message and the user entry asks for `data` from byte 112 on to
/// be the agreed message too; both cannot hold.
pub proof fn lemma_ed25519_check_never_accepts(
    data: Seq<u8>,
    merchant_pubkey: Seq<u8>,
    user_pubkey: Seq<u8>,
    referrer_pubkey: Seq<u8>,
    agreed_msg: Seq<u8>,
    ref_msg: Seq<u8>,
    merch_sig: Seq<u8>,
    user_sig: Seq<u8>,
    ref_sig: Seq<u8>,
)
    ensures
        !ed25519_data_accepted(
            data,
            merchant_pubkey,
            user_pubkey,
            referrer_pubkey,
            agreed_msg,
            ref_msg,
            merch_sig,
            user_sig,
            ref_sig,
        ),
{
    if ed25519_entry_ok(data, 0, merchant_pubkey, agreed_msg, merch_sig) && ed25519_entry_ok(
        data,
        1,
        user_pubkey,
        agreed_msg,
        user_sig,
    ) {
        assert(data.subrange(0, data.len() as int).len() == data.len());
        assert(data.subrange(112, data.len() as int).len() == data.len() - 112);
    }
}

/// Law: an entry of the data fixes the key, the message and the signature it matches.
/// Two different keys (or messages, or signatures) cannot both match entry `i`.
pub proof fn lemma_ed25519_entry_binds(
    data: Seq<u8>,
    i: int,
    pubkey1: Seq<u8>,
    msg1: Seq<u8>,
    sig1: Seq<u8>,
    pubkey2: Seq<u8>,
    msg2: Seq<u8>,
    sig2: Seq<u8>,
)
    requires
        ed25519_entry_ok(data, i, pubkey1, msg1, sig1),
        ed25519_entry_ok(data, i, pubkey2, msg2, sig2),
    ensures
        pubkey1 == pubkey2,
        msg1 == msg2,
        sig1 == sig2,
{
}

/// Law: the header fixes the offsets and the message size it matches: the signature
/// offset, the message offset and the agreed message length, each as a `u16`.
pub proof fn lemma_ed25519_header_binds(
    data: Seq<u8>,
    merchant_pubkey1: Seq<u8>,
    agreed_msg1: Seq<u8>,
    merch_sig1: Seq<u8>,
    merchant_pubkey2: Seq<u8>,
    agreed_msg2: Seq<u8>,
    merch_sig2: Seq<u8>,
)
    requires
        ed25519_header_ok(data, merchant_pubkey1, agreed_msg1, merch_sig1),
        ed25519_header_ok(data, merchant_pubkey2, agreed_msg2, merch_sig2),
    ensures
        exp_signature_offset(merchant_pubkey1) as u16 == exp_signature_offset(merchant_pubkey2) as u16,
        exp_message_data_offset(merchant_pubkey1, merch_sig1) as u16 == exp_message_data_offset(
            merchant_pubkey2,
            merch_sig2,
        ) as u16,
        agreed_msg1.len() as u16 == agreed_msg2.len() as u16,
{
    lemma_le_u16_injective(
        exp_signature_offset(merchant_pubkey1) as u16,
        exp_signature_offset(merchant_pubkey2) as u16,
    );
    lemma_le_u16_injective(
        exp_message_data_offset(merchant_pubkey1, merch_sig1) as u16,
        exp_message_data_offset(merchant_pubkey2, merch_sig2) as u16,
    );
    lemma_le_u16_injective(agreed_msg1.len() as u16, agreed_msg2.len() as u16);
}

/// Law: every key, message and signature is bound by the instruction data. Where the
/// check accepts the same data for two sets of keys, messages and signatures, the
/// sets are equal: changing any one of them makes the check refuse the data.
pub proof fn lemma_ed25519_acceptance_binds(
    data: Seq<u8>,
    merchant_pubkey1: Seq<u8>,
    user_pubkey1: Seq<u8>,
    referrer_pubkey1: Seq<u8>,
    agreed_msg1: Seq<u8>,
    ref_msg1: Seq<u8>,
    merch_sig1: Seq<u8>,
    user_sig1: Seq<u8>,
    ref_sig1: Seq<u8>,
    merchant_pubkey2: Seq<u8>,
    user_pubkey2: Seq<u8>,
    referrer_pubkey2: Seq<u8>,
    agreed_msg2: Seq<u8>,
    ref_msg2: Seq<u8>,
    merch_sig2: Seq<u8>,
    user_sig2: Seq<u8>,
    ref_sig2: Seq<u8>,
)
    ensures
        ({
            &&& ed25519_data_accepted(
                data,
                merchant_pubkey1,
                user_pubkey1,
                referrer_pubkey1,
                agreed_msg1,
                ref_msg1,
                merch_sig1,
                user_sig1,
                ref_sig1,
            )
            &&& ed25519_data_accepted(
                data,
                merchant_pubkey2,
                user_pubkey2,
                referrer_pubkey2,
                agreed_msg2,
                ref_msg2,
                merch_sig2,
                user_sig2,
                ref_sig2,
            )
        }) ==> ({
            &&& merchant_pubkey1 == merchant_pubkey2
            &&& user_pubkey1 == user_pubkey2
            &&& referrer_pubkey1 == referrer_pubkey2
            &&& agreed_msg1 == agreed_msg2
            &&& ref_msg1 == ref_msg2
            &&& merch_sig1 == merch_sig2
            &&& user_sig1 == user_sig2
            &&& ref_sig1 == ref_sig2
        }),
{
    let accepted1 = ed25519_data_accepted(
        data,
        merchant_pubkey1,
        user_pubkey1,
        referrer_pubkey1,
        agreed_msg1,
        ref_msg1,
        merch_sig1,
        user_sig1,
        ref_sig1,
    );
    let accepted2 = ed25519_data_accepted(
        data,
        merchant_pubkey2,
        user_pubkey2,
        referrer_pubkey2,
        agreed_msg2,
        ref_msg2,
        merch_sig2,
        user_sig2,
        ref_sig2,
    );
    if accepted1 && accepted2 {
        lemma_ed25519_entry_binds(data, 0, merchant_pubkey1, agreed_msg1, merch_sig1, merchant_pubkey2, agreed_msg2, merch_sig2);
        lemma_ed25519_entry_binds(data, 1, user_pubkey1, agreed_msg1, user_sig1, user_pubkey2, agreed_msg2, user_sig2);
        lemma_ed25519_entry_binds(data, 2, referrer_pubkey1, ref_msg1, ref_sig1, referrer_pubkey2, ref_msg2, ref_sig2);
    }
}

// ---------------------------------------------------------------------------
// Recording a referral transaction
// ---------------------------------------------------------------------------

/// What recording a transaction changes: the new data of the two
/// transaction-tracking accounts and of the two rewards accounts, and the creation of
/// the user's rewards account where it is needed.
pub struct PostTxnEffects {
    pub global_pda_data: Option<Vec<u8>>,
    pub local_pda_data: Option<Vec<u8>>,
    pub user_account: Option<CreateAccountPlan>,
    pub user_pda_data: Option<Vec<u8>>,
    pub ref_pda_data: Option<Vec<u8>>,
}

/// [`PostTxnEffects`] with every field taken by its view.
pub struct PostTxnEffectsSpec {
    pub global_pda_data: Option<Seq<u8>>,
    pub local_pda_data: Option<Seq<u8>>,
    pub user_account: Option<CreateAccountSpec>,
    pub user_pda_data: Option<Seq<u8>>,
    pub ref_pda_data: Option<Seq<u8>>,
}

/// The bytes in `o`, if any.
pub open spec fn bytes_opt_view(o: Option<Vec<u8>>) -> Option<Seq<u8>> {
    match o {
        Some(v) => Some(v@),
        None => None,
    }
}

impl View for PostTxnEffects {
    type V = PostTxnEffectsSpec;

    open spec fn view(&self) -> PostTxnEffectsSpec {
        PostTxnEffectsSpec {
            global_pda_data: bytes_opt_view(self.global_pda_data),
            local_pda_data: bytes_opt_view(self.local_pda_data),
            user_account: match self.user_account {
                Some(p) => Some(p@),
                None => None,
            },
            user_pda_data: bytes_opt_view(self.user_pda_data),
            ref_pda_data: bytes_opt_view(self.ref_pda_data),
        }
    }
}

/// How recording a transaction ends: its effects are applied, it is rejected with an
/// error, or it aborts (where the program would stop on a failed arithmetic or
/// indexing check, or for want of a bump seed for a derived address).
pub enum TxnOutcome {
    Applied(PostTxnEffects),
    Rejected(XrefError),
    Aborted,
}

/// [`TxnOutcome`] with the effects taken by their view.
pub enum TxnOutcomeSpec {
    Applied(PostTxnEffectsSpec),
    Rejected(XrefError),
    Aborted,
}

impl View for TxnOutcome {
    type V = TxnOutcomeSpec;

    open spec fn view(&self) -> TxnOutcomeSpec {
        match self {
            TxnOutcome::Applied(e) => TxnOutcomeSpec::Applied(e@),
            TxnOutcome::Rejected(x) => TxnOutcomeSpec::Rejected(*x),
            TxnOutcome::Aborted => TxnOutcomeSpec::Aborted,
        }
    }
}

/// A rewards account must be created when it has no data, belongs to another
/// program, or holds no lamports.
pub open spec fn needs_init(pda: AccountView, program_id: Seq<u8>) -> bool {
    pda.data@.len() == 0 || pda.owner@ != program_id || pda.lamports == 0
}

/// The referral must come at most a day and at least four seconds before the
/// purchase, and the purchase at most 50 seconds before and one second after `now`.
pub open spec fn timing_check(txn: TxnData, now: i64) -> Result<(), XrefError> {
    let mu = txn.mu_timestamp;
    let rt = txn.referrer_timestamp;
    if rt < mu - 86400 {
        Err(XrefError::InvalidInstructionData)
    } else if rt > mu - 4 {
        Err(XrefError::InvalidInstructionData)
    } else if mu < now - 50 || mu > now + 1 {
        Err(XrefError::InvalidInstructionData)
    } else {
        Ok(())
    }
}

/// The timing checks run to completion: none of the subtractions or additions they
/// make overflows.
pub open spec fn timing_defined(txn: TxnData, now: i64) -> bool {
    let mu = txn.mu_timestamp;
    let rt = txn.referrer_timestamp;
    &&& mu >= i64::MIN + 86400
    &&& (!(rt < mu - 86400) && !(rt > mu - 4)) ==> (now >= i64::MIN + 50 && (!(mu < now - 50)
        ==> now < i64::MAX))
}

/// `data` is the encoding of some rewards account.
pub open spec fn is_user_bytes(data: Seq<u8>) -> bool {
    exists|u: User| user_encodable(u) && #[trigger] user_bytes(u) == data
}

/// The rewards account that `data` encodes.
pub open spec fn user_of(data: Seq<u8>) -> User {
    choose|u: User| user_encodable(u) && #[trigger] user_bytes(u) == data
}

/// Adding `amount` to the rewards account held in `data`: the account's new bytes,
/// a rejection when the data holds no rewards account, or an abort on overflow.
pub enum RewardsUpdate {
    Written(Seq<u8>),
    Rejected(XrefError),
    Aborted,
}

pub open spec fn add_rewards_spec(data: Seq<u8>, amount: u64) -> RewardsUpdate {
    if !is_user_bytes(data) {
        RewardsUpdate::Rejected(XrefError::BorshIoError)
    } else {
        let u = user_of(data);
        if u.rewards + amount > u64::MAX {
            RewardsUpdate::Aborted
        } else {
            RewardsUpdate::Written(le_u64((u.rewards + amount) as u64) + bytes_field(u.root_hash@))
        }
    }
}

/// Law: crediting a rewards account rewrites its first eight bytes, the rewards, and
/// keeps every other byte; the new data is as long as the old, so it fits the account.
pub proof fn lemma_credit_rewrites_only_rewards(data: Seq<u8>, amount: u64)
    requires
        add_rewards_spec(data, amount) is Written,
    ensures
        ({
            let b = add_rewards_spec(data, amount)->Written_0;
            &&& b.len() == data.len()
            &&& b.subrange(0, 8) == le_u64((user_of(data).rewards + amount) as u64)
            &&& b.subrange(8, b.len() as int) == data.subrange(8, data.len() as int)
        }),
{
    let u = user_of(data);
    let b = add_rewards_spec(data, amount)->Written_0;
    assert(b.subrange(0, 8) =~= le_u64((u.rewards + amount) as u64));
    assert(b.subrange(8, b.len() as int) =~= bytes_field(u.root_hash@));
    assert(data.subrange(8, data.len() as int) =~= bytes_field(u.root_hash@));
}

/// Reward for a purchase of `cost` dollars at `rate` percent.
pub open spec fn reward_amount(cost: u8, rate: u8) -> u64 {
    ((cost as u64 * rate as u64) / 100) as u64
}

/// The data the referrer's rewards account (7) holds when it is credited. Where it is
/// the user's rewards account (6), under the same key, and that account was credited
/// first, it holds the user's new data; otherwise the data it was handed with.
pub open spec fn referrer_data_after_user(accounts: Seq<AccountView>, program_id: Seq<u8>, user_rewards: u64) -> Seq<u8> {
    let user_pda = accounts[6];
    let ref_pda = accounts[7];
    if ref_pda.key@ == user_pda.key@ && !needs_init(user_pda, program_id) {
        add_rewards_spec(user_pda.data@, user_rewards)->Written_0
    } else {
        ref_pda.data@
    }
}

/// What the last part of recording a transaction does, once the signatures are
/// accepted. Account 10 must be the ed25519 program. The transaction must be timely
/// with respect to the clock; the rewards it earns follow from the ad in account 4.
/// The user's rewards account (6) is created when needed and otherwise credited; the
/// referrer's (7) is credited unless it needs creating, after the user's, so that one
/// account handed in both places is credited twice. Where no bump seed gives the
/// user's rewards address, the program stops.
pub open spec fn settle_spec(
    program_id: Seq<u8>,
    accounts: Seq<AccountView>,
    txn: TxnData,
    clock: Result<i64, XrefError>,
    global_write: Option<Seq<u8>>,
    local_write: Option<Seq<u8>>,
) -> TxnOutcomeSpec {
    if accounts.len() < 11 {
        TxnOutcomeSpec::Rejected(XrefError::NotEnoughAccountKeys)
    } else if accounts[10].key@ != ED25519_PROGRAM_ID@ || accounts[0].key@
        != SYSVAR_INSTRUCTIONS_ID@ {
        TxnOutcomeSpec::Rejected(XrefError::InvalidAccountOwner)
    } else if clock is Err {
        TxnOutcomeSpec::Rejected(clock->Err_0)
    } else if !timing_defined(txn, clock->Ok_0) {
        TxnOutcomeSpec::Aborted
    } else if timing_check(txn, clock->Ok_0) is Err {
        TxnOutcomeSpec::Rejected(XrefError::InvalidInstructionData)
    } else if !is_ad_bytes(accounts[4].data@) {
        TxnOutcomeSpec::Rejected(XrefError::BorshIoError)
    } else {
        let ad = ad_of(accounts[4].data@);
        let user_rewards = reward_amount(txn.cost, ad.user_rate);
        let ref_rewards = reward_amount(txn.cost, ad.referrer_rate);
        let user_pda = accounts[6];
        let ref_pda = accounts[7];
        let created = create_user_spec(user_pda.key@, user_rewards, accounts.subrange(1, 3));
        let credited = add_rewards_spec(user_pda.data@, user_rewards);
        let ref_data = referrer_data_after_user(accounts, program_id, user_rewards);
        let ref_credited = add_rewards_spec(ref_data, ref_rewards);
        if needs_init(user_pda, program_id) && created is None {
            TxnOutcomeSpec::Aborted
        } else if needs_init(user_pda, program_id) && created->Some_0 is Err {
            TxnOutcomeSpec::Rejected(created->Some_0->Err_0)
        } else if !needs_init(user_pda, program_id) && credited is Rejected {
            TxnOutcomeSpec::Rejected(credited->Rejected_0)
        } else if !needs_init(user_pda, program_id) && credited is Aborted {
            TxnOutcomeSpec::Aborted
        } else if !needs_init(ref_pda, program_id) && ref_credited is Rejected {
            TxnOutcomeSpec::Rejected(ref_credited->Rejected_0)
        } else if !needs_init(ref_pda, program_id) && ref_credited is Aborted {
            TxnOutcomeSpec::Aborted
        } else {
            TxnOutcomeSpec::Applied(
                PostTxnEffectsSpec {
                    global_pda_data: global_write,
                    local_pda_data: local_write,
                    user_account: if needs_init(user_pda, program_id) {
                        Some(created->Some_0->Ok_0)
                    } else {
                        None
                    },
                    user_pda_data: if needs_init(user_pda, program_id) {
                        None
                    } else {
                        Some(credited->Written_0)
                    },
                    ref_pda_data: if needs_init(ref_pda, program_id) {
                        None
                    } else {
                        Some(ref_credited->Written_0)
                    },
                },
            )
        }
    }
}

/// Law: what settling a transaction pays. Take accounts in place (the instructions
/// sysvar first, the ed25519 program eleventh), an ad in account 4, and two distinct
/// funded rewards accounts of the program in 6 (the user's) and 7 (the referrer's).
/// If the transaction is applied, the referral came between a day and four seconds
/// before the purchase, the purchase between 50 seconds before and one second after
/// the clock; the user's rewards grow by `cost * user_rate / 100` and the referrer's
/// by `cost * referrer_rate / 100`, each account keeping the rest of its bytes, and no
/// account is created. Conversely, with that timing, no overflow on the way and
/// rewards that fit, the transaction is applied.
pub proof fn lemma_settle_pays_both_parties(
    program_id: Seq<u8>,
    accounts: Seq<AccountView>,
    txn: TxnData,
    now: i64,
    global_write: Option<Seq<u8>>,
    local_write: Option<Seq<u8>>,
    ad: Ad,
    user: User,
    referrer: User,
)
    requires
        accounts.len() >= 11,
        accounts[0].key@ == SYSVAR_INSTRUCTIONS_ID@,
        accounts[10].key@ == ED25519_PROGRAM_ID@,
        ad_encodable(ad),
        accounts[4].data@ == ad_bytes(ad),
        user_encodable(user),
        accounts[6].data@ == user_bytes(user),
        accounts[6].owner@ == program_id,
        accounts[6].lamports != 0,
        user_encodable(referrer),
        accounts[7].data@ == user_bytes(referrer),
        accounts[7].owner@ == program_id,
        accounts[7].lamports != 0,
        accounts[6].key@ != accounts[7].key@,
    ensures
        ({
            let r = settle_spec(program_id, accounts, txn, Ok::<i64, XrefError>(now), global_write, local_write);
            let mu = txn.mu_timestamp;
            let rt = txn.referrer_timestamp;
            let user_reward = (txn.cost * ad.user_rate) / 100;
            let ref_reward = (txn.cost * ad.referrer_rate) / 100;
            let timely = mu - 86400 <= rt <= mu - 4 && now - 50 <= mu <= now + 1;
            let d6 = accounts[6].data@;
            let d7 = accounts[7].data@;
            &&& r is Applied ==> {
                &&& timely
                &&& r->Applied_0.user_pda_data == Some(le_u64((user.rewards + user_reward) as u64) + d6.subrange(8, d6.len() as int))
                &&& r->Applied_0.ref_pda_data == Some(le_u64((referrer.rewards + ref_reward) as u64) + d7.subrange(8, d7.len() as int))
                &&& r->Applied_0.user_account is None
                &&& r->Applied_0.global_pda_data == global_write
                &&& r->Applied_0.local_pda_data == local_write
            }
            &&& (timely && mu >= i64::MIN + 86400 && i64::MIN + 50 <= now < i64::MAX
                && user.rewards + user_reward <= u64::MAX && referrer.rewards + ref_reward <= u64::MAX)
                ==> r is Applied
        }),
{
    assert(is_ad_bytes(accounts[4].data@));
    lemma_ad_bytes_injective(ad, ad_of(accounts[4].data@));
    assert(is_user_bytes(accounts[6].data@));
    lemma_user_bytes_injective(user, user_of(accounts[6].data@));
    assert(is_user_bytes(accounts[7].data@));
    lemma_user_bytes_injective(referrer, user_of(accounts[7].data@));
    assert(accounts[6].data@.subrange(8, accounts[6].data@.len() as int) =~= bytes_field(user.root_hash@));
    assert(accounts[7].data@.subrange(8, accounts[7].data@.len() as int) =~= bytes_field(referrer.root_hash@));
    let c = txn.cost;
    let ur = ad.user_rate;
    let rr = ad.referrer_rate;
    assert(c * ur <= 255 * 255 && c * rr <= 255 * 255) by (nonlinear_arith)
        requires
            c <= 255,
            ur <= 255,
            rr <= 255,
    ;
    assert(reward_amount(c, ur) == (c * ur) / 100);
    assert(reward_amount(c, rr) == (c * rr) / 100);
}

/// Law: one account handed in as both the user's (6) and the referrer's (7) rewards
/// account is paid both rewards. If the transaction is applied, the data last written
/// to it holds the old rewards plus `cost * user_rate / 100` plus
/// `cost * referrer_rate / 100`, and the rest of its bytes unchanged.
pub proof fn lemma_settle_pays_a_shared_account_twice(
    program_id: Seq<u8>,
    accounts: Seq<AccountView>,
    txn: TxnData,
    now: i64,
    global_write: Option<Seq<u8>>,
    local_write: Option<Seq<u8>>,
    ad: Ad,
    user: User,
)
    requires
        accounts.len() >= 11,
        ad_encodable(ad),
        accounts[4].data@ == ad_bytes(ad),
        user_encodable(user),
        accounts[6].data@ == user_bytes(user),
        accounts[6].owner@ == program_id,
        accounts[6].lamports != 0,
        accounts[7] == accounts[6],
    ensures
        ({
            let r = settle_spec(program_id, accounts, txn, Ok::<i64, XrefError>(now), global_write, local_write);
            let d = accounts[6].data@;
            r is Applied ==> r->Applied_0.ref_pda_data == Some(
                le_u64((user.rewards + (txn.cost * ad.user_rate) / 100 + (txn.cost * ad.referrer_rate) / 100) as u64)
                    + d.subrange(8, d.len() as int),
            )
        }),
{
    assert(is_ad_bytes(accounts[4].data@));
    lemma_ad_bytes_injective(ad, ad_of(accounts[4].data@));
    assert(is_user_bytes(accounts[6].data@));
    lemma_user_bytes_injective(user, user_of(accounts[6].data@));
    let c = txn.cost;
    let ur = ad.user_rate;
    let rr = ad.referrer_rate;
    assert(c * ur <= 255 * 255 && c * rr <= 255 * 255) by (nonlinear_arith)
        requires
            c <= 255,
            ur <= 255,
            rr <= 255,
    ;
    assert(reward_amount(c, ur) == (c * ur) / 100);
    assert(reward_amount(c, rr) == (c * rr) / 100);
    let d = accounts[6].data@;
    let user_reward = reward_amount(c, ur);
    let credited = add_rewards_spec(d, user_reward);
    if user.rewards + user_reward <= u64::MAX {
        let w = credited->Written_0;
        let moved = User { rewards: (user.rewards + user_reward) as u64, root_hash: user.root_hash };
        assert(w =~= user_bytes(moved));
        assert(is_user_bytes(w));
        lemma_user_bytes_injective(moved, user_of(w));
        assert(w.subrange(8, w.len() as int) =~= bytes_field(user.root_hash@));
        assert(d.subrange(8, d.len() as int) =~= bytes_field(user.root_hash@));
    }
}

/// Adds `amount` to the rewards account held in `data`.
fn add_rewards(data: &[u8], amount: u64) -> (r: Result<Option<Vec<u8>>, XrefError>)
    ensures
        match add_rewards_spec(data@, amount) {
            RewardsUpdate::Written(b) => r matches Ok(Some(v)) && v@ == b,
            RewardsUpdate::Rejected(e) => r == Err::<Option<Vec<u8>>, XrefError>(e),
            RewardsUpdate::Aborted => r matches Ok(None),
        },
{
    let u = match decode_user(data) {
        Ok(u) => u,
        Err(e) => {
            return Err(e);
        },
    };
    proof {
        lemma_user_bytes_injective(u, user_of(data@));
    }
    if u.rewards > u64::MAX - amount {
        return Ok(None);
    }
    let updated = User { rewards: u.rewards + amount, root_hash: u.root_hash };
    Ok(Some(encode_user(&updated)))
}

/// Whether the rewards account at `pda` must be created.
fn needs_init_exec(pda: &AccountView, program_id: &Address) -> (r: bool)
    ensures
        r == needs_init(*pda, program_id@),
{
    pda.data.len() == 0 || !same_address(&pda.owner, program_id) || pda.lamports == 0
}

/// The last part of recording a transaction, once the signatures are accepted:
/// checks the timing against the clock and credits (or creates) the rewards accounts.
pub fn settle_txn(
    program_id: &Address,
    accounts: &[AccountView],
    txn: &TxnData,
    clock: &Result<i64, XrefError>,
    global_write: Option<Vec<u8>>,
    local_write: Option<Vec<u8>>,
) -> (r: TxnOutcome)
    requires
        accounts@.len() >= 10,
    ensures
        r@ == settle_spec(
            program_id@,
            accounts@,
            *txn,
            *clock,
            bytes_opt_view(global_write),
            bytes_opt_view(local_write),
        ),
{
    if accounts.len() < 11 {
        return TxnOutcome::Rejected(XrefError::NotEnoughAccountKeys);
    }
    if !same_address(&accounts[10].key, &ED25519_PROGRAM_ID) || !same_address(
        &accounts[0].key,
        &SYSVAR_INSTRUCTIONS_ID,
    ) {
        return TxnOutcome::Rejected(XrefError::InvalidAccountOwner);
    }
    let user_pda = &accounts[6];
    let ref_pda = &accounts[7];
    let ref_init_needed = needs_init_exec(ref_pda, program_id);
    let user_init_needed = needs_init_exec(user_pda, program_id);
    let now: i64 = match clock {
        Ok(t) => *t,
        Err(e) => {
            return TxnOutcome::Rejected(*e);
        },
    };
    let mu = txn.mu_timestamp;
    let rt = txn.referrer_timestamp;
    if mu < i64::MIN + 86400 {
        return TxnOutcome::Aborted;
    }
    if rt < mu - 86400 {
        return TxnOutcome::Rejected(XrefError::InvalidInstructionData);
    } else if rt > mu - 4 {
        return TxnOutcome::Rejected(XrefError::InvalidInstructionData);
    }
    if now < i64::MIN + 50 {
        return TxnOutcome::Aborted;
    }
    if mu < now - 50 {
        return TxnOutcome::Rejected(XrefError::InvalidInstructionData);
    }
    if now == i64::MAX {
        return TxnOutcome::Aborted;
    }
    if mu > now + 1 {
        return TxnOutcome::Rejected(XrefError::InvalidInstructionData);
    }
    let ad_data = match decode_ad(accounts[4].data.as_slice()) {
        Ok(ad) => ad,
        Err(e) => {
            return TxnOutcome::Rejected(e);
        },
    };
    proof {
        lemma_ad_bytes_injective(ad_data, ad_of(accounts@[4].data@));
    }
    let cost = txn.cost as u64;
    let user_rate = ad_data.user_rate as u64;
    let referrer_rate = ad_data.referrer_rate as u64;
    assert(cost * user_rate <= 255 * 255 && cost * referrer_rate <= 255 * 255) by (nonlinear_arith)
        requires
            cost <= 255,
            user_rate <= 255,
            referrer_rate <= 255,
    ;
    let user_rewards: u64 = cost * user_rate / 100;
    let ref_rewards: u64 = cost * referrer_rate / 100;
    let mut user_account: Option<CreateAccountPlan> = None;
    let mut user_pda_data: Option<Vec<u8>> = None;
    if user_init_needed {
        let accs: &[AccountView] = &accounts[1..3];
        match try_create_user(&user_pda.key, user_rewards, accs) {
            Some(Ok(plan)) => {
                user_account = Some(plan);
            },
            Some(Err(e)) => {
                return TxnOutcome::Rejected(e);
            },
            None => {
                return TxnOutcome::Aborted;
            },
        }
    } else {
        match add_rewards(user_pda.data.as_slice(), user_rewards) {
            Ok(Some(v)) => {
                user_pda_data = Some(v);
            },
            Ok(None) => {
                return TxnOutcome::Aborted;
            },
            Err(e) => {
                return TxnOutcome::Rejected(e);
            },
        }
    }
    let mut ref_pda_data: Option<Vec<u8>> = None;
    if !ref_init_needed {
        let ref_source: &[u8] = match &user_pda_data {
            Some(written) => {
                if same_address(&ref_pda.key, &user_pda.key) {
                    written.as_slice()
                } else {
                    ref_pda.data.as_slice()
                }
            },
            None => ref_pda.data.as_slice(),
        };
        match add_rewards(ref_source, ref_rewards) {
            Ok(Some(v)) => {
                ref_pda_data = Some(v);
            },
            Ok(None) => {
                return TxnOutcome::Aborted;
            },
            Err(e) => {
                return TxnOutcome::Rejected(e);
            },
        }
    }
    TxnOutcome::Applied(
        PostTxnEffects {
            global_pda_data: global_write,
            local_pda_data: local_write,
            user_account,
            user_pda_data,
            ref_pda_data,
        },
    )
}

/// `data` is the encoding of some transaction.
pub open spec fn is_txn_bytes(data: Seq<u8>) -> bool {
    exists|t: TxnData| txn_data_encodable(t) && #[trigger] txn_data_bytes(t) == data
}

/// The transaction that `data` encodes.
pub open spec fn txn_of(data: Seq<u8>) -> TxnData {
    choose|t: TxnData| txn_data_encodable(t) && #[trigger] txn_data_bytes(t) == data
}

/// The message the merchant and the user sign: the transaction, its cost, the ad's,
/// merchant's, user's and referrer's keys (accounts 4, 1, 3, 2) and the agreed
/// timestamp.
pub open spec fn agreed_message(txn: TxnData, accounts: Seq<AccountView>) -> Seq<u8> {
    txn.b64txn@ + seq![txn.cost] + accounts[4].key@ + accounts[1].key@ + accounts[3].key@
        + accounts[2].key@ + le_i64(txn.mu_timestamp)
}

/// The message the referrer signs: the merchant's, user's and ad's keys.
pub open spec fn referral_message(accounts: Seq<AccountView>) -> Seq<u8> {
    accounts[1].key@ + accounts[3].key@ + accounts[4].key@
}

/// The seed of the account that tracks transactions between this merchant, user,
/// referrer and ad.
pub open spec fn global_seed(accounts: Seq<AccountView>) -> Seq<u8> {
    sha256_digest(accounts[1].key@ + accounts[3].key@ + accounts[2].key@ + accounts[4].key@)
}

/// The seed of the account that tracks transactions between this merchant, user and ad.
pub open spec fn local_seed(accounts: Seq<AccountView>) -> Seq<u8> {
    sha256_digest(accounts[1].key@ + accounts[3].key@ + accounts[4].key@)
}

/// The address derived from a single seed, or `None` where no bump seed gives one.
pub open spec fn derived_address(seed: Seq<u8>, program_id: Seq<u8>) -> Option<Seq<u8>> {
    match program_address_found(seq![seed], program_id) {
        Some((address, _bump)) => Some(address),
        None => None,
    }
}

/// What recording a referral transaction does. The instruction data must encode a
/// transaction. The accounts are, in order: the instructions sysvar, the merchant,
/// the referrer, the user, the ad, the rewards accounts of the merchant, the user and
/// the referrer (each at the address derived from its owner's key), the global and
/// the local transaction-tracking accounts (at the addresses derived from the hashes
/// of the parties' keys; each must be free of a transaction in the last 300 seconds),
/// and the ed25519 program. The first instruction of the transaction must be an
/// ed25519 signature check whose data matches the three parties' keys, messages and
/// signatures. Where no bump seed gives one of the derived addresses, the program
/// stops.
pub open spec fn post_txn_spec(
    program_id: Seq<u8>,
    accounts: Seq<AccountView>,
    instruction_data: Seq<u8>,
    clock: Result<i64, XrefError>,
) -> TxnOutcomeSpec {
    if !is_txn_bytes(instruction_data) {
        TxnOutcomeSpec::Rejected(XrefError::BorshIoError)
    } else if accounts.len() < 1 {
        TxnOutcomeSpec::Rejected(XrefError::NotEnoughAccountKeys)
    } else if accounts[0].key@ != SYSVAR_INSTRUCTIONS_ID@ {
        TxnOutcomeSpec::Rejected(XrefError::InvalidAccountOwner)
    } else if accounts.len() < 6 {
        TxnOutcomeSpec::Rejected(XrefError::NotEnoughAccountKeys)
    } else {
        let merchant_addr = derived_address(accounts[1].key@, program_id);
        let user_addr = derived_address(accounts[3].key@, program_id);
        let ref_addr = derived_address(accounts[2].key@, program_id);
        let global_addr = derived_address(global_seed(accounts), program_id);
        let local_addr = derived_address(local_seed(accounts), program_id);
        let merchant_check = pda_check(accounts[5], merchant_addr->Some_0, program_id, false, clock);
        let user_check = pda_check(accounts[6], user_addr->Some_0, program_id, false, clock);
        let ref_check = pda_check(accounts[7], ref_addr->Some_0, program_id, false, clock);
        let global_check = pda_check(accounts[8], global_addr->Some_0, program_id, true, clock);
        let local_check = pda_check(accounts[9], local_addr->Some_0, program_id, true, clock);
        if merchant_addr is None {
            TxnOutcomeSpec::Aborted
        } else if merchant_check is Err {
            TxnOutcomeSpec::Rejected(merchant_check->Err_0)
        } else if accounts.len() < 7 {
            TxnOutcomeSpec::Rejected(XrefError::NotEnoughAccountKeys)
        } else if user_addr is None {
            TxnOutcomeSpec::Aborted
        } else if user_check is Err {
            TxnOutcomeSpec::Rejected(user_check->Err_0)
        } else if accounts.len() < 8 {
            TxnOutcomeSpec::Rejected(XrefError::NotEnoughAccountKeys)
        } else if ref_addr is None {
            TxnOutcomeSpec::Aborted
        } else if ref_check is Err {
            TxnOutcomeSpec::Rejected(ref_check->Err_0)
        } else if global_addr is None {
            TxnOutcomeSpec::Aborted
        } else if accounts.len() < 9 {
            TxnOutcomeSpec::Rejected(XrefError::NotEnoughAccountKeys)
        } else if !pda_check_defined(accounts[8], global_addr->Some_0, program_id, true, clock) {
            TxnOutcomeSpec::Aborted
        } else if global_check is Err {
            TxnOutcomeSpec::Rejected(global_check->Err_0)
        } else if local_addr is None {
            TxnOutcomeSpec::Aborted
        } else if accounts.len() < 10 {
            TxnOutcomeSpec::Rejected(XrefError::NotEnoughAccountKeys)
        } else if !pda_check_defined(accounts[9], local_addr->Some_0, program_id, true, clock) {
            TxnOutcomeSpec::Aborted
        } else if local_check is Err {
            TxnOutcomeSpec::Rejected(local_check->Err_0)
        } else {
            match sysvar_instruction(0, accounts[0].data@) {
                None => TxnOutcomeSpec::Rejected(XrefError::InvalidArgument),
                Some((ed_program_id, ed_data)) => {
                    let txn = txn_of(instruction_data);
                    let agreed = agreed_message(txn, accounts);
                    if ed_program_id != ED25519_PROGRAM_ID@ {
                        TxnOutcomeSpec::Rejected(XrefError::InvalidAccountOwner)
                    } else if !ed25519_check_defined(
                        ed_data,
                        accounts[1].key@,
                        accounts[3].key@,
                        agreed,
                        txn.merchant_signature@,
                        txn.user_signature@,
                    ) {
                        TxnOutcomeSpec::Aborted
                    } else if !ed25519_data_accepted(
                        ed_data,
                        accounts[1].key@,
                        accounts[3].key@,
                        accounts[2].key@,
                        agreed,
                        referral_message(accounts),
                        txn.merchant_signature@,
                        txn.user_signature@,
                        txn.referrer_signature@,
                    ) {
                        TxnOutcomeSpec::Rejected(XrefError::InvalidInstructionData)
                    } else {
                        settle_spec(
                            program_id,
                            accounts,
                            txn,
                            clock,
                            global_check->Ok_0,
                            local_check->Ok_0,
                        )
                    }
                },
            }
        }
    }
}

/// The address derived from the single seed `seed`, if a bump seed gives one.
fn find_derived_address(seed: &Address, program_id: &Address) -> (r: Option<Address>)
    ensures
        match r {
            Some(a) => derived_address(seed@, program_id@) == Some(a@),
            None => derived_address(seed@, program_id@) is None,
        },
{
    let mut seeds: Vec<Vec<u8>> = Vec::new();
    seeds.push(address_bytes(seed));
    proof {
        lemma_byte_vecs_deep_view(seeds);
        assert(seeds.deep_view() =~= seq![seed@]);
    }
    match try_find_program_address(&seeds, program_id) {
        Some((addr, _bump)) => Some(addr),
        None => None,
    }
}

/// Whether checking a transaction-tracking account runs to completion.
fn pda_check_is_defined(
    pda: &AccountView,
    expected_pda_key: &Address,
    program_id: &Address,
    clock: &Result<i64, XrefError>,
) -> (r: bool)
    ensures
        r == pda_check_defined(*pda, expected_pda_key@, program_id@, true, *clock),
{
    match clock {
        Ok(now) => {
            !(same_address(&pda.owner, program_id) && same_address(&pda.key, expected_pda_key)
                && pda.lamports != 0 && pda.data.len() == 8) || *now >= i64::MIN + 300
        },
        Err(_) => true,
    }
}

/// Records a referral transaction, reporting an abort where the program would stop
/// on a failed arithmetic or indexing check or for want of a bump seed. `clock` is
/// the cluster's clock as the runtime gave it.
pub fn try_post_txn(
    program_id: &Address,
    accounts: &[AccountView],
    instruction_data: &[u8],
    clock: &Result<i64, XrefError>,
) -> (r: TxnOutcome)
    ensures
        r@ == post_txn_spec(program_id@, accounts@, instruction_data@, *clock),
{
    let txn_data = match decode_txn_data(instruction_data) {
        Ok(t) => t,
        Err(e) => {
            return TxnOutcome::Rejected(e);
        },
    };
    proof {
        lemma_txn_data_bytes_injective(txn_data, txn_of(instruction_data@));
    }
    if accounts.len() < 1 {
        return TxnOutcome::Rejected(XrefError::NotEnoughAccountKeys);
    }
    let sysvar = &accounts[0];
    if !same_address(&sysvar.key, &SYSVAR_INSTRUCTIONS_ID) {
        return TxnOutcome::Rejected(XrefError::InvalidAccountOwner);
    }
    if accounts.len() < 6 {
        return TxnOutcome::Rejected(XrefError::NotEnoughAccountKeys);
    }
    let merchant_acc = &accounts[1];
    let ref_acc = &accounts[2];
    let user_acc = &accounts[3];
    let ad_acc = &accounts[4];
    let merchant_pda_ = &accounts[5];
    let merchant_pda = match find_derived_address(&merchant_acc.key, program_id) {
        Some(a) => a,
        None => {
            return TxnOutcome::Aborted;
        },
    };
    if let Err(e) = checkpdalamports(merchant_pda_, &merchant_pda, program_id, false, clock) {
        return TxnOutcome::Rejected(e);
    }
    if accounts.len() < 7 {
        return TxnOutcome::Rejected(XrefError::NotEnoughAccountKeys);
    }
    let user_pda_ = &accounts[6];
    let user_pda = match find_derived_address(&user_acc.key, program_id) {
        Some(a) => a,
        None => {
            return TxnOutcome::Aborted;
        },
    };
    if let Err(e) = checkpdalamports(user_pda_, &user_pda, program_id, false, clock) {
        return TxnOutcome::Rejected(e);
    }
    if accounts.len() < 8 {
        return TxnOutcome::Rejected(XrefError::NotEnoughAccountKeys);
    }
    let ref_pda_ = &accounts[7];
    let ref_pda = match find_derived_address(&ref_acc.key, program_id) {
        Some(a) => a,
        None => {
            return TxnOutcome::Aborted;
        },
    };
    if let Err(e) = checkpdalamports(ref_pda_, &ref_pda, program_id, false, clock) {
        return TxnOutcome::Rejected(e);
    }
    let mut global_msg: Vec<u8> = Vec::new();
    push_bytes(&mut global_msg, merchant_acc.key.as_slice());
    push_bytes(&mut global_msg, user_acc.key.as_slice());
    push_bytes(&mut global_msg, ref_acc.key.as_slice());
    push_bytes(&mut global_msg, ad_acc.key.as_slice());
    proof {
        assert(global_msg@ =~= accounts@[1].key@ + accounts@[3].key@ + accounts@[2].key@
            + accounts@[4].key@);
    }
    let global_txn_pda_seed = sha256(global_msg.as_slice());
    let global_addr = match find_derived_address(&global_txn_pda_seed, program_id) {
        Some(a) => a,
        None => {
            return TxnOutcome::Aborted;
        },
    };
    if accounts.len() < 9 {
        return TxnOutcome::Rejected(XrefError::NotEnoughAccountKeys);
    }
    let global_addr_ = &accounts[8];
    if !pda_check_is_defined(global_addr_, &global_addr, program_id, clock) {
        return TxnOutcome::Aborted;
    }
    let global_write = match checkpdalamports(global_addr_, &global_addr, program_id, true, clock) {
        Ok(w) => w,
        Err(e) => {
            return TxnOutcome::Rejected(e);
        },
    };
    let mut local_msg: Vec<u8> = Vec::new();
    push_bytes(&mut local_msg, merchant_acc.key.as_slice());
    push_bytes(&mut local_msg, user_acc.key.as_slice());
    push_bytes(&mut local_msg, ad_acc.key.as_slice());
    proof {
        assert(local_msg@ =~= accounts@[1].key@ + accounts@[3].key@ + accounts@[4].key@);
    }
    let local_txn_pda_seed = sha256(local_msg.as_slice());
    let local_addr = match find_derived_address(&local_txn_pda_seed, program_id) {
        Some(a) => a,
        None => {
            return TxnOutcome::Aborted;
        },
    };
    if accounts.len() < 10 {
        return TxnOutcome::Rejected(XrefError::NotEnoughAccountKeys);
    }
    let local_pda_ = &accounts[9];
    if !pda_check_is_defined(local_pda_, &local_addr, program_id, clock) {
        return TxnOutcome::Aborted;
    }
    let local_write = match checkpdalamports(local_pda_, &local_addr, program_id, true, clock) {
        Ok(w) => w,
        Err(e) => {
            return TxnOutcome::Rejected(e);
        },
    };
    let (ed25519_program_id, sig_data) = match load_instruction_at_checked(
        0,
        &sysvar.key,
        sysvar.data.as_slice(),
    ) {
        Ok(ix) => ix,
        Err(e) => {
            return TxnOutcome::Rejected(e);
        },
    };
    if !same_address(&ed25519_program_id, &ED25519_PROGRAM_ID) {
        return TxnOutcome::Rejected(XrefError::InvalidAccountOwner);
    }
    let mut agreed_msg: Vec<u8> = Vec::new();
    push_bytes(&mut agreed_msg, txn_data.b64txn.as_slice());
    agreed_msg.push(txn_data.cost);
    push_bytes(&mut agreed_msg, ad_acc.key.as_slice());
    push_bytes(&mut agreed_msg, merchant_acc.key.as_slice());
    push_bytes(&mut agreed_msg, user_acc.key.as_slice());
    push_bytes(&mut agreed_msg, ref_acc.key.as_slice());
    push_i64(&mut agreed_msg, txn_data.mu_timestamp);
    let mut ref_msg: Vec<u8> = Vec::new();
    push_bytes(&mut ref_msg, merchant_acc.key.as_slice());
    push_bytes(&mut ref_msg, user_acc.key.as_slice());
    push_bytes(&mut ref_msg, ad_acc.key.as_slice());
    proof {
        assert(agreed_msg@ =~= agreed_message(txn_of(instruction_data@), accounts@));
        assert(ref_msg@ =~= referral_message(accounts@));
    }
    if !ed25519_check_is_defined(
        sig_data.as_slice(),
        merchant_acc.key.as_slice(),
        user_acc.key.as_slice(),
        agreed_msg.as_slice(),
        txn_data.merchant_signature.as_slice(),
        txn_data.user_signature.as_slice(),
    ) {
        return TxnOutcome::Aborted;
    }
    match check_ed25519_data(
        sig_data.as_slice(),
        merchant_acc.key.as_slice(),
        user_acc.key.as_slice(),
        ref_acc.key.as_slice(),
        agreed_msg.as_slice(),
        ref_msg.as_slice(),
        txn_data.merchant_signature.as_slice(),
        txn_data.user_signature.as_slice(),
        txn_data.referrer_signature.as_slice(),
    ) {
        Err(e) => TxnOutcome::Rejected(e),
        Ok(()) => settle_txn(program_id, accounts, &txn_data, clock, global_write, local_write),
    }
}

/// Records a referral transaction. `clock` is the cluster's clock as the runtime gave
/// it.
pub fn post_txn(
    program_id: &Address,
    accounts: &[AccountView],
    instruction_data: &[u8],
    clock: &Result<i64, XrefError>,
) -> (r: Result<PostTxnEffects, XrefError>)
    requires
        !(post_txn_spec(program_id@, accounts@, instruction_data@, *clock) is Aborted),
    ensures
        match post_txn_spec(program_id@, accounts@, instruction_data@, *clock) {
            TxnOutcomeSpec::Applied(effects) => r matches Ok(e) && e@ == effects,
            TxnOutcomeSpec::Rejected(err) => r matches Err(e) && e == err,
            TxnOutcomeSpec::Aborted => false,
        },
{
    match try_post_txn(program_id, accounts, instruction_data, clock) {
        TxnOutcome::Applied(effects) => Ok(effects),
        TxnOutcome::Rejected(e) => Err(e),
        TxnOutcome::Aborted => {
            proof {
                assert(false);
            }
            Err(XrefError::InvalidInstructionData)
        },
    }
}

/// Law: no referral transaction is ever recorded. Either it is rejected or it aborts
/// before its effects apply, because no ed25519 instruction data is accepted.
pub proof fn lemma_post_txn_never_applies(
    program_id: Seq<u8>,
    accounts: Seq<AccountView>,
    instruction_data: Seq<u8>,
    clock: Result<i64, XrefError>,
)
    ensures
        !(post_txn_spec(program_id, accounts, instruction_data, clock) is Applied),
{
    if accounts.len() >= 10 {
        if let Some((ed_program_id, ed_data)) = sysvar_instruction(0, accounts[0].data@) {
            let txn = txn_of(instruction_data);
            lemma_ed25519_check_never_accepts(
                ed_data,
                accounts[1].key@,
                accounts[3].key@,
                accounts[2].key@,
                agreed_message(txn, accounts),
                referral_message(accounts),
                txn.merchant_signature@,
                txn.user_signature@,
                txn.referrer_signature@,
            );
        }
    }
}

} // verus!
