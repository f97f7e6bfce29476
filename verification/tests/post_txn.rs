#![allow(deprecated)]

use solana_program::pubkey::Pubkey;
use solana_program::sysvar::instructions::{construct_instructions_data, BorrowedInstruction};
use xref::account::AccountView;
use xref::address::{ED25519_PROGRAM_ID, SYSVAR_INSTRUCTIONS_ID};
use xref::error::XrefError;
use xref::instructions::post_txn::{
    check_ed25519_data, checkpdalamports, ed25519_check_is_defined, post_txn, settle_txn,
    try_post_txn, TxnOutcome,
};
use xref::state::txn::TxnData;

const PROGRAM: [u8; 32] = [7u8; 32];
const MERCHANT: [u8; 32] = [11u8; 32];
const REFERRER: [u8; 32] = [12u8; 32];
const USER: [u8; 32] = [13u8; 32];
const AD: [u8; 32] = [14u8; 32];
const NOW: i64 = 1_000_000;

fn acct(key: [u8; 32], owner: [u8; 32], lamports: u64, data: Vec<u8>) -> AccountView {
    AccountView { key, owner, is_signer: false, is_writable: true, lamports, data }
}

fn pda(seed: &[u8]) -> [u8; 32] {
    Pubkey::find_program_address(&[seed], &Pubkey::new_from_array(PROGRAM)).0.to_bytes()
}

fn sha(b: &[u8]) -> [u8; 32] {
    solana_program::hash::hash(b).to_bytes()
}

fn sysvar_data(program_id: [u8; 32], data: &[u8]) -> Vec<u8> {
    let pid = Pubkey::new_from_array(program_id);
    construct_instructions_data(&[BorrowedInstruction { program_id: &pid, accounts: vec![], data }])
}

fn txn_bytes() -> Vec<u8> {
    borsh::to_vec(&(vec![1u8, 2, 3], vec![1u8; 64], vec![2u8; 64], 10u8, NOW, vec![3u8; 64], NOW - 1000))
        .unwrap()
}

fn ad_bytes() -> Vec<u8> {
    borsh::to_vec(&("u".to_string(), "n".to_string(), 5u8, 9u8, 4u8, 3u8, true, Vec::<u8>::new())).unwrap()
}

fn user_bytes(rewards: u64) -> Vec<u8> {
    borsh::to_vec(&(rewards, vec![5u8, 5])).unwrap()
}

fn global_key() -> [u8; 32] {
    let mut m = Vec::new();
    for k in [MERCHANT, USER, REFERRER, AD] {
        m.extend_from_slice(&k);
    }
    pda(&sha(&m))
}

fn local_key() -> [u8; 32] {
    let mut m = Vec::new();
    for k in [MERCHANT, USER, AD] {
        m.extend_from_slice(&k);
    }
    pda(&sha(&m))
}

/// Accounts that pass every check up to the signature check.
fn accounts(ed_program: [u8; 32], ed_data: &[u8]) -> Vec<AccountView> {
    vec![
        acct(SYSVAR_INSTRUCTIONS_ID, [0; 32], 1, sysvar_data(ed_program, ed_data)),
        acct(MERCHANT, [0; 32], 1, vec![]),
        acct(REFERRER, [0; 32], 1, vec![]),
        acct(USER, [0; 32], 1, vec![]),
        acct(AD, PROGRAM, 1, ad_bytes()),
        acct(pda(&MERCHANT), PROGRAM, 1, vec![]),
        acct(pda(&USER), PROGRAM, 1, user_bytes(100)),
        acct(pda(&REFERRER), PROGRAM, 1, user_bytes(200)),
        acct(global_key(), PROGRAM, 0, vec![]),
        acct(local_key(), PROGRAM, 0, vec![]),
        acct(ED25519_PROGRAM_ID, [0; 32], 1, vec![]),
    ]
}

fn rejected(o: TxnOutcome) -> Option<XrefError> {
    match o {
        TxnOutcome::Rejected(e) => Some(e),
        _ => None,
    }
}

#[test]
fn signature_data_that_does_not_match_is_rejected() {
    let accs = accounts(ED25519_PROGRAM_ID, &[0u8; 200]);
    assert_eq!(rejected(try_post_txn(&PROGRAM, &accs, &txn_bytes(), &Ok(NOW))), Some(XrefError::InvalidInstructionData));
    assert_eq!(post_txn(&PROGRAM, &accs, &txn_bytes(), &Ok(NOW)).err(), Some(XrefError::InvalidInstructionData));
}

#[test]
fn short_signature_data_aborts() {
    let accs = accounts(ED25519_PROGRAM_ID, &[0u8; 10]);
    assert!(matches!(try_post_txn(&PROGRAM, &accs, &txn_bytes(), &Ok(NOW)), TxnOutcome::Aborted));
}

#[test]
fn first_instruction_must_be_the_ed25519_program() {
    let accs = accounts([3; 32], &[0u8; 200]);
    assert_eq!(rejected(try_post_txn(&PROGRAM, &accs, &txn_bytes(), &Ok(NOW))), Some(XrefError::InvalidAccountOwner));
}

#[test]
fn unreadable_instructions_sysvar_is_invalid_argument() {
    let mut accs = accounts(ED25519_PROGRAM_ID, &[0u8; 200]);
    accs[0].data = vec![1];
    assert_eq!(rejected(try_post_txn(&PROGRAM, &accs, &txn_bytes(), &Ok(NOW))), Some(XrefError::InvalidArgument));
}

#[test]
fn post_txn_account_checks() {
    let good = || accounts(ED25519_PROGRAM_ID, &[0u8; 200]);
    let data = txn_bytes();
    assert_eq!(rejected(try_post_txn(&PROGRAM, &good(), &data[1..], &Ok(NOW))), Some(XrefError::BorshIoError));
    assert_eq!(rejected(try_post_txn(&PROGRAM, &good()[..5], &data, &Ok(NOW))), Some(XrefError::NotEnoughAccountKeys));
    assert_eq!(rejected(try_post_txn(&PROGRAM, &good()[..9], &data, &Ok(NOW))), Some(XrefError::NotEnoughAccountKeys));
    let mut a = good();
    a[0].key = [1; 32];
    assert_eq!(rejected(try_post_txn(&PROGRAM, &a, &data, &Ok(NOW))), Some(XrefError::InvalidAccountOwner));
    let mut a = good();
    a[5].owner = [1; 32];
    assert_eq!(rejected(try_post_txn(&PROGRAM, &a, &data, &Ok(NOW))), Some(XrefError::IncorrectProgramId));
    let mut a = good();
    a[6].key = [1; 32];
    assert_eq!(rejected(try_post_txn(&PROGRAM, &a, &data, &Ok(NOW))), Some(XrefError::InvalidSeeds));
    let mut a = good();
    a[9].key = global_key();
    assert_eq!(rejected(try_post_txn(&PROGRAM, &a, &data, &Ok(NOW))), Some(XrefError::InvalidSeeds));
}

#[test]
fn tracking_account_replay_window() {
    let data = txn_bytes();
    let mut a = accounts(ED25519_PROGRAM_ID, &[0u8; 200]);
    a[8].lamports = 5;
    a[8].data = borsh::to_vec(&(NOW - 100)).unwrap();
    assert_eq!(rejected(try_post_txn(&PROGRAM, &a, &data, &Ok(NOW))), Some(XrefError::InvalidAccountData));
    a[8].data = borsh::to_vec(&(NOW - 400)).unwrap();
    assert_eq!(rejected(try_post_txn(&PROGRAM, &a, &data, &Ok(NOW))), Some(XrefError::InvalidInstructionData));
    a[8].data = vec![0; 7];
    assert_eq!(rejected(try_post_txn(&PROGRAM, &a, &data, &Ok(NOW))), Some(XrefError::BorshIoError));
    a[8].data = borsh::to_vec(&(NOW - 400)).unwrap();
    assert_eq!(rejected(try_post_txn(&PROGRAM, &a, &data, &Err(XrefError::Program(5)))), Some(XrefError::Program(5)));
}

#[test]
fn checkpdalamports_moves_the_timestamp() {
    let key = [4u8; 32];
    let funded = acct(key, PROGRAM, 10, borsh::to_vec(&(NOW - 300)).unwrap());
    let w = checkpdalamports(&funded, &key, &PROGRAM, true, &Ok(NOW)).unwrap().unwrap();
    assert_eq!(w, borsh::to_vec(&NOW).unwrap());
    assert_eq!(checkpdalamports(&funded, &key, &PROGRAM, false, &Ok(NOW)), Ok(None));
    let recent = acct(key, PROGRAM, 10, borsh::to_vec(&(NOW - 299)).unwrap());
    assert_eq!(checkpdalamports(&recent, &key, &PROGRAM, true, &Ok(NOW)), Err(XrefError::InvalidAccountData));
    let empty = acct(key, PROGRAM, 0, vec![]);
    assert_eq!(checkpdalamports(&empty, &key, &PROGRAM, true, &Ok(NOW)), Ok(None));
    assert_eq!(checkpdalamports(&empty, &key, &[1; 32], true, &Ok(NOW)), Err(XrefError::IncorrectProgramId));
    assert_eq!(checkpdalamports(&empty, &[1; 32], &PROGRAM, true, &Ok(NOW)), Err(XrefError::InvalidSeeds));
}

fn header(merchant_key_len: u16, merch_sig_len: u16, agreed_len: u16) -> Vec<u8> {
    let sig_off = 16 + merchant_key_len;
    let msg_off = sig_off + merch_sig_len;
    let mut h = vec![3u8, 0];
    h.extend_from_slice(&sig_off.to_le_bytes());
    h.extend_from_slice(&u16::MAX.to_le_bytes());
    h.extend_from_slice(&16u16.to_le_bytes());
    h.extend_from_slice(&u16::MAX.to_le_bytes());
    h.extend_from_slice(&msg_off.to_le_bytes());
    h.extend_from_slice(&agreed_len.to_le_bytes());
    h.extend_from_slice(&u16::MAX.to_le_bytes());
    h
}

#[test]
fn ed25519_check_rejects_wrong_header_and_entries() {
    let key = [1u8; 32];
    let sig = [2u8; 64];
    let agreed = vec![5u8; 300];
    let mut data = header(32, 64, 300);
    data.resize(300, 9);
    assert!(ed25519_check_is_defined(&data, &key, &key, &agreed, &sig, &sig));
    assert_eq!(check_ed25519_data(&data, &key, &key, &key, &agreed, &agreed, &sig, &sig, &sig), Err(XrefError::InvalidInstructionData));
    let mut bad_padding = data.clone();
    bad_padding[1] = 1;
    assert_eq!(check_ed25519_data(&bad_padding, &key, &key, &key, &agreed, &agreed, &sig, &sig, &sig), Err(XrefError::InvalidInstructionData));
}

#[test]
fn ed25519_check_would_stop_on_short_data() {
    let key = [1u8; 32];
    let sig = [2u8; 64];
    assert!(!ed25519_check_is_defined(&[0u8; 63], &key, &key, &[], &sig, &sig));
    // The merchant entry matches a 100-byte buffer; reading the user entry would
    // run past its end.
    let mut data = header(32, 64, 100);
    data.resize(100, 0);
    let key: Vec<u8> = data[..32].to_vec();
    let sig: Vec<u8> = data[..64].to_vec();
    let agreed = data.clone();
    assert!(!ed25519_check_is_defined(&data, &key, &key, &agreed, &sig, &sig));
    assert!(!ed25519_check_is_defined(&[0u8; 100], &[0u8; 32], &[0u8; 32], &vec![0u8; 70000], &sig, &sig));
}

fn settle_accounts(user_lamports: u64, user_rewards: u64) -> Vec<AccountView> {
    let mut a = accounts(ED25519_PROGRAM_ID, &[0u8; 200]);
    a[6].lamports = user_lamports;
    a[6].data = user_bytes(user_rewards);
    a
}

fn txn(cost: u8, referrer_timestamp: i64, mu_timestamp: i64) -> TxnData {
    TxnData {
        b64txn: vec![],
        merchant_signature: vec![],
        user_signature: vec![],
        cost,
        mu_timestamp,
        referrer_signature: vec![],
        referrer_timestamp,
    }
}

#[test]
fn settle_credits_both_rewards_accounts() {
    let a = settle_accounts(1, 100);
    match settle_txn(&PROGRAM, &a, &txn(200, NOW - 10, NOW), &Ok(NOW), Some(vec![1]), None) {
        TxnOutcome::Applied(e) => {
            // 200 * 3 / 100 = 6 for the user, 200 * 4 / 100 = 8 for the referrer
            assert_eq!(e.user_pda_data, Some(user_bytes(106)));
            assert_eq!(e.ref_pda_data, Some(user_bytes(208)));
            assert_eq!(e.global_pda_data, Some(vec![1]));
            assert_eq!(e.local_pda_data, None);
            assert!(e.user_account.is_none());
        },
        _ => panic!("expected the transaction to apply"),
    }
}

#[test]
fn settle_timing_and_failures() {
    let a = settle_accounts(1, 100);
    let run = |t: TxnData, clock: Result<i64, XrefError>| settle_txn(&PROGRAM, &a, &t, &clock, None, None);
    assert_eq!(rejected(run(txn(200, NOW - 86401, NOW), Ok(NOW))), Some(XrefError::InvalidInstructionData));
    assert_eq!(rejected(run(txn(200, NOW - 3, NOW), Ok(NOW))), Some(XrefError::InvalidInstructionData));
    assert_eq!(rejected(run(txn(200, NOW - 110, NOW - 51), Ok(NOW))), Some(XrefError::InvalidInstructionData));
    assert_eq!(rejected(run(txn(200, NOW - 10, NOW + 2), Ok(NOW))), Some(XrefError::InvalidInstructionData));
    assert!(matches!(run(txn(200, NOW - 86400, NOW - 50), Ok(NOW)), TxnOutcome::Applied(_)));
    assert_eq!(rejected(run(txn(200, NOW - 10, NOW), Err(XrefError::Program(9)))), Some(XrefError::Program(9)));
    assert!(matches!(run(txn(200, 0, i64::MIN + 5), Ok(NOW)), TxnOutcome::Aborted));
    assert_eq!(rejected(settle_txn(&PROGRAM, &a[..10], &txn(200, NOW - 10, NOW), &Ok(NOW), None, None)), Some(XrefError::NotEnoughAccountKeys));
    let overflow = settle_accounts(1, u64::MAX);
    assert!(matches!(settle_txn(&PROGRAM, &overflow, &txn(200, NOW - 10, NOW), &Ok(NOW), None, None), TxnOutcome::Aborted));
    // A user rewards account without lamports must be created, which fails with the
    // merchant and referrer as the only accounts handed over.
    let fresh = settle_accounts(0, 100);
    assert_eq!(rejected(settle_txn(&PROGRAM, &fresh, &txn(200, NOW - 10, NOW), &Ok(NOW), None, None)), Some(XrefError::InvalidAccountOwner));
    let mut bad_ad = settle_accounts(1, 100);
    bad_ad[4].data = vec![1, 2, 3];
    assert_eq!(rejected(settle_txn(&PROGRAM, &bad_ad, &txn(200, NOW - 10, NOW), &Ok(NOW), None, None)), Some(XrefError::BorshIoError));
}

#[test]
fn ed25519_check_rejects_even_a_matching_merchant_entry() {
    // The merchant entry matches (key, signature and the whole data as the agreed
    // message); the user entry then needs the data from byte 112 on to be the same
    // message, which is shorter, so the check fails.
    let mut data = header(32, 64, 150);
    data.resize(150, 4);
    let key: Vec<u8> = data[..32].to_vec();
    let sig: Vec<u8> = data[..64].to_vec();
    let agreed = data.clone();
    assert!(ed25519_check_is_defined(&data, &key, &key, &agreed, &sig, &sig));
    assert_eq!(check_ed25519_data(&data, &key, &key, &key, &agreed, &agreed, &sig, &sig, &sig), Err(XrefError::InvalidInstructionData));
}

#[test]
fn settle_credits_one_account_twice_when_user_and_referrer_share_it() {
    let mut a = settle_accounts(1, 100);
    a[7] = acct(pda(&USER), PROGRAM, 1, user_bytes(100));
    match settle_txn(&PROGRAM, &a, &txn(200, NOW - 10, NOW), &Ok(NOW), None, None) {
        TxnOutcome::Applied(e) => {
            // The referrer's credit of 8 is added on top of the user's credit of 6.
            assert_eq!(e.user_pda_data, Some(user_bytes(106)));
            assert_eq!(e.ref_pda_data, Some(user_bytes(114)));
        },
        _ => panic!("expected the transaction to apply"),
    }
}

#[test]
fn ed25519_check_refuses_a_changed_key_message_or_signature() {
    let mut data = header(32, 64, 150);
    data.resize(150, 4);
    let key: Vec<u8> = data[..32].to_vec();
    let sig: Vec<u8> = data[..64].to_vec();
    let agreed = data.clone();
    let other_key = vec![0u8; 32];
    let other_sig = vec![0u8; 64];
    let other_msg = vec![0u8; 150];
    assert_eq!(check_ed25519_data(&data, &other_key, &key, &key, &agreed, &agreed, &sig, &sig, &sig), Err(XrefError::InvalidInstructionData));
    assert_eq!(check_ed25519_data(&data, &key, &key, &key, &other_msg, &agreed, &sig, &sig, &sig), Err(XrefError::InvalidInstructionData));
    assert_eq!(check_ed25519_data(&data, &key, &key, &key, &agreed, &agreed, &other_sig, &sig, &sig), Err(XrefError::InvalidInstructionData));
}
