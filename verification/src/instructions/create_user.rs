use vstd::prelude::*;

use crate::account::{lemma_byte_vecs_deep_view, same_outcome, same_outcome_or_stop, AccountView, CreateAccountPlan, CreateAccountSpec};
use crate::address::{address_bytes, same_address, Address, SYSTEM_PROGRAM_ID};
use crate::codec::le_u64;
use crate::error::XrefError;
use crate::outside::{program_address_found, try_find_program_address};
use crate::state::user::encode_rewards;

verus! {

/// What creating a rewards account does. The accounts are, in order: the user, the
/// user's rewards account (which must sit at the address derived from the user's key
/// and be empty), the payer, and the system program. The new account holds eight
/// bytes: the initial rewards. `None`: no bump seed gives the user's address, and the
/// program stops.
pub open spec fn create_user_spec(program_id: Seq<u8>, rewards: u64, accounts: Seq<AccountView>) -> Option<Result<CreateAccountSpec, XrefError>> {
    if accounts.len() < 1 {
        Some(Err(XrefError::NotEnoughAccountKeys))
    } else {
        let user = accounts[0];
        match program_address_found(seq![user.key@], program_id) {
            None => None,
            Some((addr, bump)) => Some(
                if accounts.len() < 2 {
                    Err(XrefError::NotEnoughAccountKeys)
                } else if accounts[1].key@ != addr {
                    Err(XrefError::InvalidAccountOwner)
                } else if accounts[1].data@.len() != 0 {
                    Err(XrefError::AccountAlreadyInitialized)
                } else if accounts.len() < 4 {
                    Err(XrefError::NotEnoughAccountKeys)
                } else if accounts[3].key@ != SYSTEM_PROGRAM_ID@ {
                    Err(XrefError::InvalidArgument)
                } else {
                    Ok(
                        CreateAccountSpec {
                            payer: accounts[2].key@,
                            new_account: addr,
                            space: 8,
                            owner: program_id,
                            signer_seeds: seq![user.key@, seq![bump]],
                            initial_data: le_u64(rewards),
                        },
                    )
                },
            ),
        }
    }
}

/// Plans the creation of a user's rewards account, holding `rewards`, where the
/// program does not stop for want of a bump seed.
pub fn create_user(program_id: &Address, rewards: u64, accounts: &[AccountView]) -> (r: Result<CreateAccountPlan, XrefError>)
    requires
        create_user_spec(program_id@, rewards, accounts@) is Some,
    ensures
        same_outcome(r, create_user_spec(program_id@, rewards, accounts@)->Some_0),
{
    match try_create_user(program_id, rewards, accounts) {
        Some(r) => r,
        None => {
            proof {
                assert(false);
            }
            Err(XrefError::InvalidSeeds)
        },
    }
}

/// Plans the creation of a user's rewards account, holding `rewards`; `None` where no
/// bump seed gives the user's address, on which the program stops.
pub fn try_create_user(program_id: &Address, rewards: u64, accounts: &[AccountView]) -> (r: Option<Result<CreateAccountPlan, XrefError>>)
    ensures
        same_outcome_or_stop(r, create_user_spec(program_id@, rewards, accounts@)),
{
    if accounts.len() < 1 {
        return Some(Err(XrefError::NotEnoughAccountKeys));
    }
    let user_acc = &accounts[0];
    let mut seeds: Vec<Vec<u8>> = Vec::new();
    seeds.push(address_bytes(&user_acc.key));
    proof {
        lemma_byte_vecs_deep_view(seeds);
        assert(seeds.deep_view() =~= seq![user_acc.key@]);
    }
    let (addr, bump) = match try_find_program_address(&seeds, program_id) {
        Some(found) => found,
        None => {
            return None;
        },
    };
    if accounts.len() < 2 {
        return Some(Err(XrefError::NotEnoughAccountKeys));
    }
    let pda_acc = &accounts[1];
    if !same_address(&pda_acc.key, &addr) {
        return Some(Err(XrefError::InvalidAccountOwner));
    } else if pda_acc.data.len() != 0 {
        return Some(Err(XrefError::AccountAlreadyInitialized));
    }
    if accounts.len() < 3 {
        return Some(Err(XrefError::NotEnoughAccountKeys));
    }
    let merc_acc = &accounts[2];
    if accounts.len() < 4 {
        return Some(Err(XrefError::NotEnoughAccountKeys));
    }
    let system_program = &accounts[3];
    if !same_address(&system_program.key, &SYSTEM_PROGRAM_ID) {
        return Some(Err(XrefError::InvalidArgument));
    }
    let mut signer_seeds: Vec<Vec<u8>> = Vec::new();
    signer_seeds.push(address_bytes(&user_acc.key));
    let mut bump_seed: Vec<u8> = Vec::new();
    bump_seed.push(bump);
    signer_seeds.push(bump_seed);
    let plan = CreateAccountPlan {
        payer: merc_acc.key,
        new_account: addr,
        space: 8,
        owner: *program_id,
        signer_seeds,
        initial_data: encode_rewards(rewards),
    };
    proof {
        lemma_byte_vecs_deep_view(plan.signer_seeds);
        assert(plan.signer_seeds.deep_view() =~= seq![user_acc.key@, seq![bump]]);
    }
    Some(Ok(plan))
}

/// Law: where the accounts are in place, a rewards account is created, whatever the
/// rewards, zero included. Where the second account is empty and sits at the address
/// derived from the first account's key, and the system program comes fourth, an
/// eight-byte account is created there, paid for by the third account, owned by the
/// program, signed for with the user's key and the bump, and holding the rewards as
/// a little-endian `u64`.
pub proof fn lemma_create_user_succeeds(
    program_id: Seq<u8>,
    rewards: u64,
    accounts: Seq<AccountView>,
    addr: Seq<u8>,
    bump: u8,
)
    requires
        accounts.len() >= 4,
        program_address_found(seq![accounts[0].key@], program_id) == Some((addr, bump)),
        accounts[1].key@ == addr,
        accounts[1].data@.len() == 0,
        accounts[3].key@ == SYSTEM_PROGRAM_ID@,
    ensures
        create_user_spec(program_id, rewards, accounts) == Some(
            Ok::<CreateAccountSpec, XrefError>(
                CreateAccountSpec {
                    payer: accounts[2].key@,
                    new_account: addr,
                    space: 8,
                    owner: program_id,
                    signer_seeds: seq![accounts[0].key@, seq![bump]],
                    initial_data: le_u64(rewards),
                },
            ),
        ),
{
}

/// Law: when creating a rewards account is refused, whatever the rewards. With no
/// account at all, accounts are missing; where no bump seed gives an address for the
/// user's key, the program stops; a rewards account elsewhere than at that address is
/// refused as having the wrong owner, one that holds data as already initialised, and
/// a fourth account other than the system program as an invalid argument.
pub proof fn lemma_create_user_refusals(program_id: Seq<u8>, rewards: u64, accounts: Seq<AccountView>)
    ensures
        ({
            let r = create_user_spec(program_id, rewards, accounts);
            let found = program_address_found(seq![accounts[0].key@], program_id);
            &&& accounts.len() == 0 ==> r == Some(Err::<CreateAccountSpec, XrefError>(XrefError::NotEnoughAccountKeys))
            &&& accounts.len() >= 1 && found is None ==> r is None
            &&& accounts.len() >= 2 && found is Some && accounts[1].key@ != found->Some_0.0 ==> r == Some(
                Err::<CreateAccountSpec, XrefError>(XrefError::InvalidAccountOwner),
            )
            &&& accounts.len() >= 2 && found is Some && accounts[1].key@ == found->Some_0.0
                && accounts[1].data@.len() != 0 ==> r == Some(
                Err::<CreateAccountSpec, XrefError>(XrefError::AccountAlreadyInitialized),
            )
            &&& accounts.len() >= 4 && found is Some && accounts[1].key@ == found->Some_0.0
                && accounts[1].data@.len() == 0 && accounts[3].key@ != SYSTEM_PROGRAM_ID@ ==> r == Some(
                Err::<CreateAccountSpec, XrefError>(XrefError::InvalidArgument),
            )
        }),
{
}

} // verus!
