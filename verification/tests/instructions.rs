use solana_program::pubkey::Pubkey;
use xref::account::AccountView;
use xref::address::SYSTEM_PROGRAM_ID;
use xref::error::XrefError;
use xref::instructions::create_ad::{create_ad, try_create_ad};
use xref::instructions::create_referrer::create_referrer;
use xref::instructions::create_user::{create_user, try_create_user};
use xref::instructions::delete_ad::delete_ad;
use xref::instructions::delete_user::{delete_user, try_delete_user};
use xref::instructions::dispute_txn::dispute_txn;

const PROGRAM: [u8; 32] = [7u8; 32];

fn acct(key: [u8; 32], owner: [u8; 32], lamports: u64, data: Vec<u8>) -> AccountView {
    AccountView { key, owner, is_signer: false, is_writable: true, lamports, data }
}

fn pda(seeds: &[&[u8]], program_id: &[u8; 32]) -> ([u8; 32], u8) {
    let (k, b) = Pubkey::find_program_address(seeds, &Pubkey::new_from_array(*program_id));
    (k.to_bytes(), b)
}

fn sha(b: &[u8]) -> [u8; 32] {
    solana_program::hash::hash(b).to_bytes()
}

fn ad_data() -> Vec<u8> {
    borsh::to_vec(&("u".to_string(), "n".to_string(), 5u8, 9u8, 4u8, 3u8, true, vec![1u8])).unwrap()
}

#[test]
fn create_ad_plans_the_ad_account() {
    let data = ad_data();
    let merchant = [1u8; 32];
    let hashed = sha(&[5, b'u', b'n', b't', b'r', b'u', b'e']);
    let (addr, bump) = pda(&[&hashed, &merchant], &PROGRAM);
    assert_ne!(addr, hashed);
    let accounts = vec![
        acct(merchant, [0; 32], 10, vec![]),
        acct(addr, [0; 32], 0, vec![]),
        acct(SYSTEM_PROGRAM_ID, [0; 32], 1, vec![]),
    ];
    let plan = create_ad(&PROGRAM, &data, &accounts).unwrap();
    assert_eq!(plan.payer, merchant);
    assert_eq!(plan.new_account, addr);
    assert_eq!(plan.space, data.len() as u64);
    assert_eq!(plan.owner, PROGRAM);
    assert_eq!(plan.signer_seeds, vec![hashed.to_vec(), merchant.to_vec(), vec![bump]]);
    assert_eq!(plan.initial_data, data);
}

#[test]
fn create_ad_errors() {
    let data = ad_data();
    let merchant = [1u8; 32];
    let hashed = sha(&[5, b'u', b'n', b't', b'r', b'u', b'e']);
    let (addr, _) = pda(&[&hashed, &merchant], &PROGRAM);
    assert_eq!(create_ad(&PROGRAM, &[1, 2], &[]).err(), Some(XrefError::BorshIoError));
    assert_eq!(create_ad(&PROGRAM, &data, &[]).err(), Some(XrefError::NotEnoughAccountKeys));
    let one = vec![acct(merchant, [0; 32], 0, vec![])];
    assert_eq!(create_ad(&PROGRAM, &data, &one).err(), Some(XrefError::NotEnoughAccountKeys));
    let wrong = vec![acct(merchant, [0; 32], 0, vec![]), acct([3; 32], [0; 32], 0, vec![])];
    assert_eq!(create_ad(&PROGRAM, &data, &wrong).err(), Some(XrefError::InvalidAccountOwner));
    let used = vec![acct(merchant, [0; 32], 0, vec![]), acct(addr, [0; 32], 0, vec![1])];
    assert_eq!(create_ad(&PROGRAM, &data, &used).err(), Some(XrefError::AccountAlreadyInitialized));
    let two = vec![acct(merchant, [0; 32], 0, vec![]), acct(addr, [0; 32], 0, vec![])];
    assert_eq!(create_ad(&PROGRAM, &data, &two).err(), Some(XrefError::NotEnoughAccountKeys));
    let bad_sys = vec![
        acct(merchant, [0; 32], 0, vec![]),
        acct(addr, [0; 32], 0, vec![]),
        acct([4; 32], [0; 32], 0, vec![]),
    ];
    assert_eq!(create_ad(&PROGRAM, &data, &bad_sys).err(), Some(XrefError::InvalidArgument));
}

#[test]
fn create_user_plans_the_rewards_account() {
    let user = [2u8; 32];
    let (addr, bump) = pda(&[&user], &PROGRAM);
    let accounts = vec![
        acct(user, [0; 32], 0, vec![]),
        acct(addr, [0; 32], 0, vec![]),
        acct([1; 32], [0; 32], 50, vec![]),
        acct(SYSTEM_PROGRAM_ID, [0; 32], 0, vec![]),
    ];
    let plan = create_user(&PROGRAM, 42, &accounts).unwrap();
    assert_eq!(plan.payer, [1; 32]);
    assert_eq!(plan.new_account, addr);
    assert_eq!(plan.space, 8);
    assert_eq!(plan.owner, PROGRAM);
    assert_eq!(plan.signer_seeds, vec![user.to_vec(), vec![bump]]);
    assert_eq!(plan.initial_data, vec![42, 0, 0, 0, 0, 0, 0, 0]);
    assert_eq!(create_user(&PROGRAM, 42, &accounts[..3]).err(), Some(XrefError::NotEnoughAccountKeys));
    let mut bad = accounts.clone_views();
    bad[1].data = vec![0];
    assert_eq!(create_user(&PROGRAM, 42, &bad).err(), Some(XrefError::AccountAlreadyInitialized));
    bad[1].key = [9; 32];
    assert_eq!(create_user(&PROGRAM, 42, &bad).err(), Some(XrefError::InvalidAccountOwner));
    let mut bad_sys = accounts.clone_views();
    bad_sys[3].key = [5; 32];
    assert_eq!(create_user(&PROGRAM, 42, &bad_sys).err(), Some(XrefError::InvalidArgument));
}

trait CloneViews {
    fn clone_views(&self) -> Vec<AccountView>;
}

impl CloneViews for Vec<AccountView> {
    fn clone_views(&self) -> Vec<AccountView> {
        self.iter()
            .map(|a| AccountView {
                key: a.key,
                owner: a.owner,
                is_signer: a.is_signer,
                is_writable: a.is_writable,
                lamports: a.lamports,
                data: a.data.clone(),
            })
            .collect()
    }
}

#[test]
fn delete_user_plans_the_transfer() {
    let user = [2u8; 32];
    let (addr, bump) = pda(&[&user], &PROGRAM);
    let accounts = vec![
        acct(user, [0; 32], 0, vec![]),
        acct(addr, PROGRAM, 777, vec![]),
        acct(SYSTEM_PROGRAM_ID, [0; 32], 0, vec![]),
    ];
    let plan = delete_user(&PROGRAM, &[4], &accounts).unwrap();
    assert_eq!(plan.from, addr);
    assert_eq!(plan.to, user);
    assert_eq!(plan.lamports, 777);
    assert_eq!(plan.signer_seeds, vec![user.to_vec(), vec![bump]]);
    assert_eq!(delete_user(&PROGRAM, &[4], &accounts[..2]).err(), Some(XrefError::NotEnoughAccountKeys));
    let mut wrong = accounts.clone_views();
    wrong[1].key = user;
    assert_eq!(delete_user(&PROGRAM, &[4], &wrong).err(), Some(XrefError::InvalidAccountData));
}

#[test]
fn dispute_txn_hashes_the_dispute() {
    let reporter = [9u8; 32];
    let t = (vec![[1u8; 32]], vec![[3u8; 32], [4u8; 32]], vec![7u8, 8], reporter);
    let data = borsh::to_vec(&t).unwrap();
    let mut combined = Vec::new();
    combined.extend_from_slice(&[3u8; 32]);
    combined.extend_from_slice(&[4u8; 32]);
    combined.extend_from_slice(&reporter);
    combined.extend_from_slice(&[7, 8]);
    combined.extend_from_slice(&[1u8; 32]);
    let accounts = vec![acct(reporter, [0; 32], 0, vec![])];
    assert_eq!(dispute_txn(&PROGRAM, &data, &accounts).unwrap(), sha(&combined));
    assert_eq!(dispute_txn(&PROGRAM, &data, &[]).err(), Some(XrefError::NotEnoughAccountKeys));
    let other = vec![acct([8; 32], [0; 32], 0, vec![])];
    assert_eq!(dispute_txn(&PROGRAM, &data, &other).err(), Some(XrefError::InvalidInstructionData));
    assert_eq!(dispute_txn(&PROGRAM, &data[1..], &accounts).err(), Some(XrefError::BorshIoError));
}

#[test]
fn delete_ad_and_create_referrer_accept() {
    assert_eq!(delete_ad(&PROGRAM, &[1], &[]), Ok(()));
    assert_eq!(create_referrer(&PROGRAM, &[], &[]), Ok(()));
}

#[test]
fn searches_that_find_a_bump_seed_do_not_stop() {
    let user = [2u8; 32];
    let (addr, bump) = pda(&[&user], &PROGRAM);
    let create_accounts = vec![
        acct(user, [0; 32], 0, vec![]),
        acct(addr, [0; 32], 0, vec![]),
        acct([1; 32], [0; 32], 50, vec![]),
        acct(SYSTEM_PROGRAM_ID, [0; 32], 0, vec![]),
    ];
    let plan = try_create_user(&PROGRAM, 42, &create_accounts).unwrap().unwrap();
    assert_eq!(plan.signer_seeds, vec![user.to_vec(), vec![bump]]);
    let delete_accounts = vec![
        acct(user, [0; 32], 0, vec![]),
        acct(addr, PROGRAM, 5, vec![]),
        acct(SYSTEM_PROGRAM_ID, [0; 32], 0, vec![]),
    ];
    let transfer = try_delete_user(&PROGRAM, &[4], &delete_accounts).unwrap().unwrap();
    assert_eq!(transfer.lamports, 5);
    assert_eq!(transfer.from, addr);
    let data = ad_data();
    assert_eq!(try_create_ad(&PROGRAM, &data, &[]).unwrap().err(), Some(XrefError::NotEnoughAccountKeys));
    assert_eq!(try_create_ad(&PROGRAM, &[1, 2], &[]).unwrap().err(), Some(XrefError::BorshIoError));
    assert_eq!(try_create_user(&PROGRAM, 1, &[]).unwrap().err(), Some(XrefError::NotEnoughAccountKeys));
}
