use xref::account::AccountView;
use xref::address::{ROUTER_PUBKEY, TARGET_PROGRAM_ID};
use xref::entry::{process_instruction, require_handler, XrefInstruction};
use xref::error::XrefError;
use xref::router::{execute, route};

fn acct(key: [u8; 32], is_signer: bool, is_writable: bool) -> AccountView {
    AccountView { key, owner: [0; 32], is_signer, is_writable, lamports: 0, data: vec![] }
}

#[test]
fn only_the_router_may_call() {
    let pid = [7u8; 32];
    assert_eq!(process_instruction(&pid, &[], &[0]), Err(XrefError::NotEnoughAccountKeys));
    assert_eq!(process_instruction(&pid, &[acct(ROUTER_PUBKEY, false, true)], &[0]), Err(XrefError::AccountBorrowFailed));
    assert_eq!(process_instruction(&pid, &[acct([1; 32], true, true)], &[0]), Err(XrefError::IllegalOwner));
}

#[test]
fn tags_select_requests() {
    let pid = [7u8; 32];
    let caller = [acct(ROUTER_PUBKEY, true, false)];
    let expected = [
        XrefInstruction::CreateAd,
        XrefInstruction::DeleteAd,
        XrefInstruction::EditAd,
        XrefInstruction::CreateMerchant,
        XrefInstruction::DeleteMerchant,
        XrefInstruction::PostTxn,
        XrefInstruction::DisputeTxn,
        XrefInstruction::VoteDispute,
        XrefInstruction::DistributeRewards,
    ];
    for (tag, ix) in expected.iter().enumerate() {
        assert_eq!(process_instruction(&pid, &caller, &[tag as u8, 1, 2]), Ok(*ix));
    }
    assert_eq!(process_instruction(&pid, &caller, &[9]), Err(XrefError::InvalidInstructionData));
    assert_eq!(process_instruction(&pid, &caller, &[255]), Err(XrefError::InvalidInstructionData));
}

#[test]
fn router_forwards_requests_to_the_program() {
    let pid = [8u8; 32];
    let accounts = [acct(TARGET_PROGRAM_ID, false, false), acct([5; 32], true, true)];
    let data = [5u8, 1, 2];
    let ix = route(&pid, &accounts, &data).unwrap();
    assert_eq!(ix.program_id, TARGET_PROGRAM_ID);
    assert_eq!(ix.data, borsh::to_vec(&&data[..]).unwrap());
    assert_eq!(ix.data, vec![3, 0, 0, 0, 5, 1, 2]);
    assert_eq!(ix.accounts.len(), 2);
    assert_eq!(ix.accounts[1].pubkey, [5; 32]);
    assert!(ix.accounts[1].is_signer);
    assert!(ix.accounts[1].is_writable);
    assert!(!ix.accounts[0].is_signer);
    assert_eq!(route(&pid, &accounts, &[8]).err(), Some(XrefError::InvalidInstructionData));
    assert_eq!(route(&pid, &[acct([1; 32], false, false)], &[0]).err(), Some(XrefError::InvalidInstructionData));
    assert_eq!(route(&pid, &[], &[0]).err(), Some(XrefError::NotEnoughAccountKeys));
}

#[test]
fn execute_names_every_account() {
    let accounts = [acct([1; 32], true, false), acct([2; 32], false, true)];
    let ix = execute(&[9; 32], &[], &accounts);
    assert_eq!(ix.program_id, [9; 32]);
    assert_eq!(ix.data, vec![0, 0, 0, 0]);
    assert_eq!(ix.accounts[0].pubkey, [1; 32]);
    assert!(ix.accounts[0].is_signer && !ix.accounts[0].is_writable);
    assert_eq!(ix.accounts[1].pubkey, [2; 32]);
}

#[test]
fn forwarded_request_is_served_by_its_length() {
    // The router frames the request with its length, so the program reads the
    // length's low byte as the tag: a three-byte request arrives as request 3.
    let accounts = [acct(TARGET_PROGRAM_ID, true, false)];
    let ix = route(&[8; 32], &accounts, &[5, 1, 2]).unwrap();
    assert_eq!(process_instruction(&[7; 32], &accounts, &ix.data), Ok(XrefInstruction::CreateMerchant));
    let ix = route(&[8; 32], &accounts, &[0; 12]).unwrap();
    assert_eq!(process_instruction(&[7; 32], &accounts, &ix.data), Err(XrefError::InvalidInstructionData));
}

#[test]
fn requests_without_a_handler_are_invalid_instruction_data() {
    assert_eq!(require_handler(XrefInstruction::CreateAd), Ok(()));
    assert_eq!(require_handler(XrefInstruction::DeleteAd), Ok(()));
    assert_eq!(require_handler(XrefInstruction::PostTxn), Ok(()));
    assert_eq!(require_handler(XrefInstruction::DisputeTxn), Ok(()));
    for ix in [
        XrefInstruction::EditAd,
        XrefInstruction::CreateMerchant,
        XrefInstruction::DeleteMerchant,
        XrefInstruction::VoteDispute,
        XrefInstruction::DistributeRewards,
    ] {
        assert_eq!(require_handler(ix), Err(XrefError::InvalidInstructionData));
    }
}
