//! The router program: it forwards requests, unchanged in their accounts, to the
//! xref program.
use vstd::prelude::*;

use crate::account::{AccountMeta, AccountView, CpiInstruction};
use crate::address::{same_address, Address, ROUTER_PUBKEY, TARGET_PROGRAM_ID};
use crate::codec::{bytes_field, fits_u32, le_u32};
use crate::entry::{instruction_for_tag, process_instruction_spec, XrefInstruction};
use crate::error::XrefError;
use crate::outside::borsh_to_vec_bytes;

verus! {

/// An account named in an instruction exactly as the caller handed it over.
pub open spec fn meta_of(a: AccountView, m: AccountMeta) -> bool {
    m.pubkey@ == a.key@ && m.is_signer == a.is_signer && m.is_writable == a.is_writable
}

/// Builds the instruction that forwards `instruction_data` to `program_id`, naming
/// every account as it was handed over. The data travels as a byte string.
pub fn execute(program_id: &Address, instruction_data: &[u8], accounts: &[AccountView]) -> (r: CpiInstruction)
    requires
        fits_u32(instruction_data@),
    ensures
        r.program_id@ == program_id@,
        r.data@ == bytes_field(instruction_data@),
        r.accounts@.len() == accounts@.len(),
        forall|i: int| 0 <= i < accounts@.len() ==> meta_of(accounts@[i], #[trigger] r.accounts@[i]),
{
    let mut metas: Vec<AccountMeta> = Vec::new();
    let mut i: usize = 0;
    while i < accounts.len()
        invariant
            0 <= i <= accounts@.len(),
            metas@.len() == i,
            forall|j: int| 0 <= j < i ==> meta_of(accounts@[j], #[trigger] metas@[j]),
        decreases accounts@.len() - i,
    {
        let acc = &accounts[i];
        metas.push(AccountMeta { pubkey: acc.key, is_signer: acc.is_signer, is_writable: acc.is_writable });
        i = i + 1;
    }
    CpiInstruction { program_id: *program_id, accounts: metas, data: borsh_to_vec_bytes(instruction_data) }
}

/// The router forwards a request when account 0 is the xref program and the tag byte
/// is one of 0 to 7.
pub open spec fn route_forwards(accounts: Seq<AccountView>, instruction_data: Seq<u8>) -> bool {
    accounts.len() >= 1 && accounts[0].key@ == TARGET_PROGRAM_ID@ && instruction_data[0] <= 7
}

/// Decides whether to forward a request and builds the forwarding instruction. A
/// request to the xref program must carry at least the tag byte.
pub fn route(program_id: &Address, accounts: &[AccountView], instruction_data: &[u8]) -> (r: Result<CpiInstruction, XrefError>)
    requires
        (accounts@.len() >= 1 && accounts@[0].key@ == TARGET_PROGRAM_ID@) ==> instruction_data@.len() >= 1,
        route_forwards(accounts@, instruction_data@) ==> fits_u32(instruction_data@),
    ensures
        accounts@.len() < 1 ==> r == Err::<CpiInstruction, XrefError>(XrefError::NotEnoughAccountKeys),
        accounts@.len() >= 1 && accounts@[0].key@ != TARGET_PROGRAM_ID@ ==> r == Err::<CpiInstruction, XrefError>(XrefError::InvalidInstructionData),
        accounts@.len() >= 1 && accounts@[0].key@ == TARGET_PROGRAM_ID@ && instruction_data@[0] > 7 ==> r == Err::<CpiInstruction, XrefError>(XrefError::InvalidInstructionData),
        route_forwards(accounts@, instruction_data@) ==> (r matches Ok(ix) && ix.program_id@ == accounts@[0].key@ && ix.data@ == bytes_field(instruction_data@)
            && ix.accounts@.len() == accounts@.len() && forall|i: int| 0 <= i < accounts@.len() ==> meta_of(accounts@[i], #[trigger] ix.accounts@[i])),
{
    if accounts.len() < 1 {
        return Err(XrefError::NotEnoughAccountKeys);
    }
    let xref_pgm = &accounts[0];
    if !same_address(&xref_pgm.key, &TARGET_PROGRAM_ID) {
        return Err(XrefError::InvalidInstructionData);
    }
    let request = instruction_data[0];
    if request <= 7 {
        Ok(execute(&xref_pgm.key, instruction_data, accounts))
    } else {
        Err(XrefError::InvalidInstructionData)
    }
}

/// Law: the router sends a request on as a length-prefixed byte string, so the byte
/// the xref program reads as the tag is the low byte of the request's length, not the
/// request's own tag. With the router's signature on account 0 (the program's address
/// and the router's are the same), the program serves the request that this byte names.
pub proof fn lemma_forwarded_tag(accounts: Seq<AccountView>, instruction_data: Seq<u8>)
    requires
        route_forwards(accounts, instruction_data),
        fits_u32(instruction_data),
        accounts[0].is_signer,
    ensures
        process_instruction_spec(accounts, bytes_field(instruction_data)) == match instruction_for_tag(
            (instruction_data.len() % 256) as u8,
        ) {
            Some(ix) => Ok::<XrefInstruction, XrefError>(ix),
            None => Err(XrefError::InvalidInstructionData),
        },
{
    let n = instruction_data.len() as u32;
    assert(bytes_field(instruction_data)[0] == le_u32(n)[0]);
    assert((n & 0xff) as u8 == (n % 256) as u8) by (bit_vector);
    assert(TARGET_PROGRAM_ID@ =~= ROUTER_PUBKEY@);
}

} // verus!
