use vstd::prelude::*;
use vstd::utf8::encode_utf8;

use crate::account::{lemma_byte_vecs_deep_view, same_outcome, same_outcome_or_stop, AccountView, CreateAccountPlan, CreateAccountSpec};
use crate::address::{address_bytes, same_address, Address, SYSTEM_PROGRAM_ID};
use crate::codec::push_bytes;
use crate::error::XrefError;
use crate::outside::{program_address_found, sha256, sha256_digest, try_find_program_address};
use crate::state::ad::{same_ad, ad_bytes, ad_encodable, decode_ad, encode_ad, lemma_ad_bytes_injective, Ad};

verus! {

/// The text of a `bool`, as `to_string` writes it.
pub open spec fn bool_text(b: bool) -> Seq<u8> {
    if b {
        seq![116u8, 114, 117, 101]
    } else {
        seq![102u8, 97, 108, 115, 101]
    }
}

/// `data` is the encoding of some ad.
pub open spec fn is_ad_bytes(data: Seq<u8>) -> bool {
    exists|ad: Ad| ad_encodable(ad) && #[trigger] ad_bytes(ad) == data
}

/// The ad that `data` encodes.
pub open spec fn ad_of(data: Seq<u8>) -> Ad {
    choose|ad: Ad| ad_encodable(ad) && #[trigger] ad_bytes(ad) == data
}

/// What identifies an ad: its industry code, url, name and the text of its type.
pub open spec fn ad_identity(ad: Ad) -> Seq<u8> {
    seq![ad.industry_code] + encode_utf8(ad.url@) + encode_utf8(ad.name@) + bool_text(ad.type_)
}

/// What creating an ad does. The instruction data must encode an ad. The accounts
/// are, in order: the merchant (who pays), the ad's account (which must sit at the
/// address derived from the hash of the ad's identity and the merchant's key, and be
/// empty), and the system program. The new account is as large as the instruction
/// data and holds the ad's bytes. `None`: no bump seed gives the ad's address, and the
/// program stops.
pub open spec fn create_ad_spec(program_id: Seq<u8>, instruction_data: Seq<u8>, accounts: Seq<AccountView>) -> Option<Result<CreateAccountSpec, XrefError>> {
    if !is_ad_bytes(instruction_data) {
        Some(Err(XrefError::BorshIoError))
    } else {
        let ad = ad_of(instruction_data);
        let hashed = sha256_digest(ad_identity(ad));
        if accounts.len() < 1 {
            Some(Err(XrefError::NotEnoughAccountKeys))
        } else {
            let merchant = accounts[0];
            match program_address_found(seq![hashed, merchant.key@], program_id) {
                None => None,
                Some((addr, bump)) => Some(
                    if accounts.len() < 2 {
                        Err(XrefError::NotEnoughAccountKeys)
                    } else if accounts[1].key@ != addr {
                        Err(XrefError::InvalidAccountOwner)
                    } else if accounts[1].data@.len() != 0 {
                        Err(XrefError::AccountAlreadyInitialized)
                    } else if accounts.len() < 3 {
                        Err(XrefError::NotEnoughAccountKeys)
                    } else if accounts[2].key@ != SYSTEM_PROGRAM_ID@ {
                        Err(XrefError::InvalidArgument)
                    } else {
                        Ok(
                            CreateAccountSpec {
                                payer: merchant.key@,
                                new_account: addr,
                                space: instruction_data.len() as u64,
                                owner: program_id,
                                signer_seeds: seq![hashed, merchant.key@, seq![bump]],
                                initial_data: instruction_data,
                            },
                        )
                    },
                ),
            }
        }
    }
}

/// Plans the creation of an ad's account from the instruction data, where the
/// program does not stop for want of a bump seed.
pub fn create_ad(program_id: &Address, instruction_data: &[u8], accounts: &[AccountView]) -> (r: Result<CreateAccountPlan, XrefError>)
    requires
        create_ad_spec(program_id@, instruction_data@, accounts@) is Some,
    ensures
        same_outcome(r, create_ad_spec(program_id@, instruction_data@, accounts@)->Some_0),
{
    match try_create_ad(program_id, instruction_data, accounts) {
        Some(r) => r,
        None => {
            proof {
                assert(false);
            }
            Err(XrefError::InvalidSeeds)
        },
    }
}

/// Plans the creation of an ad's account from the instruction data; `None` where no
/// bump seed gives the ad's address, on which the program stops.
pub fn try_create_ad(program_id: &Address, instruction_data: &[u8], accounts: &[AccountView]) -> (r: Option<Result<CreateAccountPlan, XrefError>>)
    ensures
        same_outcome_or_stop(r, create_ad_spec(program_id@, instruction_data@, accounts@)),
{
    let ad_data = match decode_ad(instruction_data) {
        Ok(ad) => ad,
        Err(e) => {
            return Some(Err(e));
        },
    };
    proof {
        let other = ad_of(instruction_data@);
        lemma_ad_bytes_injective(ad_data, other);
    }
    let mut combined: Vec<u8> = Vec::new();
    combined.push(ad_data.industry_code);
    push_bytes(&mut combined, ad_data.url.as_str().as_bytes());
    push_bytes(&mut combined, ad_data.name.as_str().as_bytes());
    if ad_data.type_ {
        // "true"
        combined.push(116);
        combined.push(114);
        combined.push(117);
        combined.push(101);
    } else {
        // "false"
        combined.push(102);
        combined.push(97);
        combined.push(108);
        combined.push(115);
        combined.push(101);
    }
    assert(combined@ =~= ad_identity(ad_data));
    let hashed = sha256(combined.as_slice());
    if accounts.len() < 1 {
        return Some(Err(XrefError::NotEnoughAccountKeys));
    }
    let merc_acc = &accounts[0];
    let mut seeds: Vec<Vec<u8>> = Vec::new();
    seeds.push(address_bytes(&hashed));
    seeds.push(address_bytes(&merc_acc.key));
    proof {
        lemma_byte_vecs_deep_view(seeds);
        assert(seeds.deep_view() =~= seq![hashed@, merc_acc.key@]);
    }
    let (addr, bump) = match try_find_program_address(&seeds, program_id) {
        Some(found) => found,
        None => {
            return None;
        },
    };
    if accounts.len() < 2 {
        return Some(Err(XrefError::NotEnoughAccountKeys));
    }
    let pda_acc = &accounts[1];
    if !same_address(&pda_acc.key, &addr) {
        return Some(Err(XrefError::InvalidAccountOwner));
    } else if pda_acc.data.len() != 0 {
        return Some(Err(XrefError::AccountAlreadyInitialized));
    }
    if accounts.len() < 3 {
        return Some(Err(XrefError::NotEnoughAccountKeys));
    }
    let system_program = &accounts[2];
    if !same_address(&system_program.key, &SYSTEM_PROGRAM_ID) {
        return Some(Err(XrefError::InvalidArgument));
    }
    let mut bump_seed: Vec<u8> = Vec::new();
    bump_seed.push(bump);
    seeds.push(bump_seed);
    let plan = CreateAccountPlan {
        payer: merc_acc.key,
        new_account: addr,
        space: instruction_data.len() as u64,
        owner: *program_id,
        signer_seeds: seeds,
        initial_data: encode_ad(&ad_data),
    };
    proof {
        lemma_byte_vecs_deep_view(plan.signer_seeds);
        assert(plan.signer_seeds.deep_view() =~= seq![hashed@, merc_acc.key@, seq![bump]]);
    }
    Some(Ok(plan))
}

/// Law: where the accounts are in place, an ad is created. For an ad whose bytes are
/// the instruction data, its identity is its industry code, the UTF-8 bytes of its
/// url and of its name, and the text `bool::to_string` gives for its type: "true"
/// for a direct ad, "false" for an indirect one. Where the ad's account is empty and
/// sits at the address derived from the SHA-256 hash of that identity and the
/// merchant's key, and the system program comes third, the account is created there,
/// paid for by the merchant, owned by the program, as large as the instruction data
/// and holding it.
pub proof fn lemma_create_ad_succeeds(
    program_id: Seq<u8>,
    ad: Ad,
    accounts: Seq<AccountView>,
    addr: Seq<u8>,
    bump: u8,
)
    requires
        ad_encodable(ad),
        accounts.len() >= 3,
        program_address_found(
            seq![
                sha256_digest(
                    seq![ad.industry_code] + encode_utf8(ad.url@) + encode_utf8(ad.name@) + (if ad.type_ {
                        seq![116u8, 114, 117, 101]
                    } else {
                        seq![102u8, 97, 108, 115, 101]
                    }),
                ),
                accounts[0].key@,
            ],
            program_id,
        ) == Some((addr, bump)),
        accounts[1].key@ == addr,
        accounts[1].data@.len() == 0,
        accounts[2].key@ == SYSTEM_PROGRAM_ID@,
    ensures
        create_ad_spec(program_id, ad_bytes(ad), accounts) == Some(
            Ok::<CreateAccountSpec, XrefError>(
                CreateAccountSpec {
                    payer: accounts[0].key@,
                    new_account: addr,
                    space: ad_bytes(ad).len() as u64,
                    owner: program_id,
                    signer_seeds: seq![
                        sha256_digest(
                            seq![ad.industry_code] + encode_utf8(ad.url@) + encode_utf8(ad.name@) + (if ad.type_ {
                                seq![116u8, 114, 117, 101]
                            } else {
                                seq![102u8, 97, 108, 115, 101]
                            }),
                        ),
                        accounts[0].key@,
                        seq![bump],
                    ],
                    initial_data: ad_bytes(ad),
                },
            ),
        ),
{
    assert(is_ad_bytes(ad_bytes(ad)));
    lemma_ad_bytes_injective(ad, ad_of(ad_bytes(ad)));
    assert(same_ad(ad, ad_of(ad_bytes(ad))));
}

/// Law: when an ad is refused. Instruction data that encodes no ad is a decoding error;
/// with no account at all, accounts are missing. Otherwise, with `hashed` the SHA-256
/// hash of the ad's identity (industry code, url, name, and "true" or "false" for its
/// type): where no bump seed gives an address for it and the merchant, the program
/// stops; an ad account elsewhere than at that address is refused as having the wrong
/// owner, one that holds data as already initialised, and a third account other than
/// the system program as an invalid argument.
pub proof fn lemma_create_ad_refusals(
    program_id: Seq<u8>,
    instruction_data: Seq<u8>,
    ad: Ad,
    accounts: Seq<AccountView>,
    hashed: Seq<u8>,
)
    requires
        hashed == sha256_digest(
            seq![ad.industry_code] + encode_utf8(ad.url@) + encode_utf8(ad.name@) + (if ad.type_ {
                seq![116u8, 114, 117, 101]
            } else {
                seq![102u8, 97, 108, 115, 101]
            }),
        ),
    ensures
        (forall|a: Ad| ad_encodable(a) ==> #[trigger] ad_bytes(a) != instruction_data) ==> create_ad_spec(
            program_id,
            instruction_data,
            accounts,
        ) == Some(Err::<CreateAccountSpec, XrefError>(XrefError::BorshIoError)),
        ad_encodable(ad) && instruction_data == ad_bytes(ad) ==> {
            let r = create_ad_spec(program_id, instruction_data, accounts);
            let found = program_address_found(seq![hashed, accounts[0].key@], program_id);
            &&& accounts.len() == 0 ==> r == Some(Err::<CreateAccountSpec, XrefError>(XrefError::NotEnoughAccountKeys))
            &&& accounts.len() >= 1 && found is None ==> r is None
            &&& accounts.len() >= 2 && found is Some && accounts[1].key@ != found->Some_0.0 ==> r == Some(
                Err::<CreateAccountSpec, XrefError>(XrefError::InvalidAccountOwner),
            )
            &&& accounts.len() >= 2 && found is Some && accounts[1].key@ == found->Some_0.0
                && accounts[1].data@.len() != 0 ==> r == Some(
                Err::<CreateAccountSpec, XrefError>(XrefError::AccountAlreadyInitialized),
            )
            &&& accounts.len() >= 3 && found is Some && accounts[1].key@ == found->Some_0.0
                && accounts[1].data@.len() == 0 && accounts[2].key@ != SYSTEM_PROGRAM_ID@ ==> r == Some(
                Err::<CreateAccountSpec, XrefError>(XrefError::InvalidArgument),
            )
        },
{
    if ad_encodable(ad) && instruction_data == ad_bytes(ad) {
        assert(is_ad_bytes(instruction_data));
        lemma_ad_bytes_injective(ad, ad_of(instruction_data));
    }
}

} // verus!
