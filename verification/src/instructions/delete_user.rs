use vstd::prelude::*;

use crate::account::{lemma_byte_vecs_deep_view, same_outcome, same_outcome_or_stop, AccountView, TransferPlan, TransferSpec};
use crate::address::{address_bytes, same_address, Address};
use crate::error::XrefError;
use crate::outside::{program_address_found, try_find_program_address};

verus! {

/// What closing a user's rewards account does. The accounts are, in order: the user,
/// the user's rewards account (which must sit at the address derived from the user's
/// key), and the system program. All the rewards account's lamports go to the user,
/// and the account is left with none. `None`: no bump seed gives the user's address,
/// and the program stops.
pub open spec fn delete_user_spec(program_id: Seq<u8>, accounts: Seq<AccountView>) -> Option<Result<TransferSpec, XrefError>> {
    if accounts.len() < 3 {
        Some(Err(XrefError::NotEnoughAccountKeys))
    } else {
        match program_address_found(seq![accounts[0].key@], program_id) {
            None => None,
            Some((addr, bump)) => Some(
                if addr != accounts[1].key@ {
                    Err(XrefError::InvalidAccountData)
                } else {
                    Ok(
                        TransferSpec {
                            from: accounts[1].key@,
                            to: accounts[0].key@,
                            lamports: accounts[1].lamports,
                            signer_seeds: seq![accounts[0].key@, seq![bump]],
                        },
                    )
                },
            ),
        }
    }
}

/// Plans the closing of a user's rewards account, where the program does not stop for
/// want of a bump seed.
pub fn delete_user(program_id: &Address, instruction_data: &[u8], accounts: &[AccountView]) -> (r: Result<TransferPlan, XrefError>)
    requires
        delete_user_spec(program_id@, accounts@) is Some,
    ensures
        same_outcome(r, delete_user_spec(program_id@, accounts@)->Some_0),
{
    match try_delete_user(program_id, instruction_data, accounts) {
        Some(r) => r,
        None => {
            proof {
                assert(false);
            }
            Err(XrefError::InvalidSeeds)
        },
    }
}

/// Plans the closing of a user's rewards account; `None` where no bump seed gives the
/// user's address, on which the program stops.
pub fn try_delete_user(program_id: &Address, instruction_data: &[u8], accounts: &[AccountView]) -> (r: Option<Result<TransferPlan, XrefError>>)
    ensures
        same_outcome_or_stop(r, delete_user_spec(program_id@, accounts@)),
{
    if accounts.len() < 3 {
        return Some(Err(XrefError::NotEnoughAccountKeys));
    }
    let user_acc = &accounts[0];
    let user_pda = &accounts[1];
    let mut seeds: Vec<Vec<u8>> = Vec::new();
    seeds.push(address_bytes(&user_acc.key));
    proof {
        lemma_byte_vecs_deep_view(seeds);
        assert(seeds.deep_view() =~= seq![user_acc.key@]);
    }
    let (addr, bump) = match try_find_program_address(&seeds, program_id) {
        Some(found) => found,
        None => {
            return None;
        },
    };
    if !same_address(&addr, &user_pda.key) {
        return Some(Err(XrefError::InvalidAccountData));
    }
    let mut bump_seed: Vec<u8> = Vec::new();
    bump_seed.push(bump);
    seeds.push(bump_seed);
    let plan = TransferPlan { from: user_pda.key, to: user_acc.key, lamports: user_pda.lamports, signer_seeds: seeds };
    proof {
        lemma_byte_vecs_deep_view(plan.signer_seeds);
        assert(plan.signer_seeds.deep_view() =~= seq![user_acc.key@, seq![bump]]);
    }
    Some(Ok(plan))
}

/// Law: a rewards account at the address derived from the user's key is closed,
/// whatever data or lamports it holds: all its lamports go to the user, signed for
/// with the user's key and the bump.
pub proof fn lemma_delete_user_succeeds(program_id: Seq<u8>, accounts: Seq<AccountView>, addr: Seq<u8>, bump: u8)
    requires
        accounts.len() >= 3,
        program_address_found(seq![accounts[0].key@], program_id) == Some((addr, bump)),
        accounts[1].key@ == addr,
    ensures
        delete_user_spec(program_id, accounts) == Some(
            Ok::<TransferSpec, XrefError>(
                TransferSpec {
                    from: addr,
                    to: accounts[0].key@,
                    lamports: accounts[1].lamports,
                    signer_seeds: seq![accounts[0].key@, seq![bump]],
                },
            ),
        ),
{
}

/// Law: when closing a rewards account is refused. With fewer than three accounts,
/// accounts are missing; where no bump seed gives an address for the user's key, the
/// program stops; a rewards account elsewhere than at that address is refused as
/// holding invalid data.
pub proof fn lemma_delete_user_refusals(program_id: Seq<u8>, accounts: Seq<AccountView>)
    ensures
        ({
            let r = delete_user_spec(program_id, accounts);
            let found = program_address_found(seq![accounts[0].key@], program_id);
            &&& accounts.len() < 3 ==> r == Some(Err::<TransferSpec, XrefError>(XrefError::NotEnoughAccountKeys))
            &&& accounts.len() >= 3 && found is None ==> r is None
            &&& accounts.len() >= 3 && found is Some && accounts[1].key@ != found->Some_0.0 ==> r == Some(
                Err::<TransferSpec, XrefError>(XrefError::InvalidAccountData),
            )
        }),
{
}

} // verus!
