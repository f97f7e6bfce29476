use vstd::prelude::*;

use crate::account::AccountView;
use crate::address::{same_address, Address, ROUTER_PUBKEY};
use crate::error::XrefError;

verus! {

/// The requests the program serves, by the first byte of the instruction data.
#[derive(Debug, Clone, Copy, PartialEq, Eq, Structural)]
pub enum XrefInstruction {
    /// 0: create an ad.
    CreateAd,
    /// 1: remove an ad.
    DeleteAd,
    /// 2: change an ad.
    EditAd,
    /// 3: create a merchant account.
    CreateMerchant,
    /// 4: delete a merchant account.
    DeleteMerchant,
    /// 5: record a referral transaction.
    PostTxn,
    /// 6: dispute a transaction.
    DisputeTxn,
    /// 7: vote on a dispute.
    VoteDispute,
    /// 8: distribute the weekly rewards.
    DistributeRewards,
}

/// The request a tag byte names, if any.
pub open spec fn instruction_for_tag(tag: u8) -> Option<XrefInstruction> {
    if tag == 0 {
        Some(XrefInstruction::CreateAd)
    } else if tag == 1 {
        Some(XrefInstruction::DeleteAd)
    } else if tag == 2 {
        Some(XrefInstruction::EditAd)
    } else if tag == 3 {
        Some(XrefInstruction::CreateMerchant)
    } else if tag == 4 {
        Some(XrefInstruction::DeleteMerchant)
    } else if tag == 5 {
        Some(XrefInstruction::PostTxn)
    } else if tag == 6 {
        Some(XrefInstruction::DisputeTxn)
    } else if tag == 7 {
        Some(XrefInstruction::VoteDispute)
    } else if tag == 8 {
        Some(XrefInstruction::DistributeRewards)
    } else {
        None
    }
}

/// The caller is the router: account 0 has signed and is the router's address.
pub open spec fn called_by_router(accounts: Seq<AccountView>) -> bool {
    accounts.len() >= 1 && accounts[0].is_signer && accounts[0].key@ == ROUTER_PUBKEY@
}

/// Which request the program serves: only the router may call it, and the first byte
/// of the instruction data names the request.
pub open spec fn process_instruction_spec(accounts: Seq<AccountView>, instruction_data: Seq<u8>) -> Result<XrefInstruction, XrefError> {
    if accounts.len() < 1 {
        Err(XrefError::NotEnoughAccountKeys)
    } else if !accounts[0].is_signer {
        Err(XrefError::AccountBorrowFailed)
    } else if accounts[0].key@ != ROUTER_PUBKEY@ {
        Err(XrefError::IllegalOwner)
    } else {
        match instruction_for_tag(instruction_data[0]) {
            Some(ix) => Ok(ix),
            None => Err(XrefError::InvalidInstructionData),
        }
    }
}

/// Decides which request to serve. A call from the router must carry at least the
/// tag byte.
pub fn process_instruction(program_id: &Address, accounts: &[AccountView], instruction_data: &[u8]) -> (r: Result<XrefInstruction, XrefError>)
    requires
        called_by_router(accounts@) ==> instruction_data@.len() >= 1,
    ensures
        r == process_instruction_spec(accounts@, instruction_data@),
{
    if accounts.len() < 1 {
        return Err(XrefError::NotEnoughAccountKeys);
    }
    let caller_acc = &accounts[0];
    if !caller_acc.is_signer {
        return Err(XrefError::AccountBorrowFailed);
    } else if !same_address(&caller_acc.key, &ROUTER_PUBKEY) {
        return Err(XrefError::IllegalOwner);
    }
    match instruction_data[0] {
        0 => Ok(XrefInstruction::CreateAd),
        1 => Ok(XrefInstruction::DeleteAd),
        2 => Ok(XrefInstruction::EditAd),
        3 => Ok(XrefInstruction::CreateMerchant),
        4 => Ok(XrefInstruction::DeleteMerchant),
        5 => Ok(XrefInstruction::PostTxn),
        6 => Ok(XrefInstruction::DisputeTxn),
        7 => Ok(XrefInstruction::VoteDispute),
        8 => Ok(XrefInstruction::DistributeRewards),
        _ => Err(XrefError::InvalidInstructionData),
    }
}

/// Whether this program carries a handler for the request. Editing an ad, the
/// merchant accounts, dispute votes and the weekly distribution have none.
pub open spec fn has_handler(ix: XrefInstruction) -> bool {
    ix is CreateAd || ix is DeleteAd || ix is PostTxn || ix is DisputeTxn
}

/// Refuses, as malformed instruction data, a request that this program has no
/// handler for.
pub fn require_handler(ix: XrefInstruction) -> (r: Result<(), XrefError>)
    ensures
        has_handler(ix) ==> r is Ok,
        !has_handler(ix) ==> r == Err::<(), XrefError>(XrefError::InvalidInstructionData),
{
    match ix {
        XrefInstruction::CreateAd | XrefInstruction::DeleteAd | XrefInstruction::PostTxn
        | XrefInstruction::DisputeTxn => Ok(()),
        _ => Err(XrefError::InvalidInstructionData),
    }
}

} // verus!
