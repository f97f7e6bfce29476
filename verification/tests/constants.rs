use std::str::FromStr;

use solana_program::pubkey::Pubkey;
use xref::address::{
    same_address, ED25519_PROGRAM_ID, ROUTER_PUBKEY, SYSTEM_PROGRAM_ID, SYSVAR_INSTRUCTIONS_ID,
    TARGET_PROGRAM_ID,
};

#[test]
fn program_ids_match_solana() {
    assert_eq!(
        ED25519_PROGRAM_ID,
        Pubkey::from_str("Ed25519SigVerify111111111111111111111111111").unwrap().to_bytes()
    );
    assert_eq!(SYSVAR_INSTRUCTIONS_ID, solana_program::sysvar::instructions::ID.to_bytes());
    assert_eq!(SYSTEM_PROGRAM_ID, solana_program::system_program::ID.to_bytes());
    assert_eq!(ROUTER_PUBKEY, [0u8; 32]);
    assert_eq!(TARGET_PROGRAM_ID, [0u8; 32]);
}

#[test]
fn same_address_compares_every_byte() {
    let a = [1u8; 32];
    let mut b = a;
    assert!(same_address(&a, &b));
    b[31] = 0;
    assert!(!same_address(&a, &b));
    b = a;
    b[0] = 0;
    assert!(!same_address(&a, &b));
}
