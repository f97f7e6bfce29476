//! The calls this library makes into std functions that vstd leaves unspecified and
//! into the Solana and borsh crates. Each contract here is trusted, not proved.
use vstd::prelude::*;
use vstd::utf8::{decode_utf8, valid_utf8};

use crate::address::{Address, SYSVAR_INSTRUCTIONS_ID};
use crate::codec::{bytes_field, fits_u32};
use crate::error::XrefError;
use solana_program::account_info::AccountInfo;
use solana_program::program_error::ProgramError;
use solana_program::pubkey::Pubkey;

verus! {

/// Calls `String::from_utf8` (std). Claimed: it succeeds exactly when the bytes are
/// well-formed UTF-8, and the text it returns is the one those bytes encode.
#[verifier::external_body]
pub(crate) fn string_from_utf8(bytes: Vec<u8>) -> (r: Option<String>)
    ensures
        r is Some <==> valid_utf8(bytes@),
        r matches Some(s) ==> s@ == decode_utf8(bytes@),
{
    String::from_utf8(bytes).ok()
}

/// The SHA-256 digest of `data`.
pub uninterp spec fn sha256_digest(data: Seq<u8>) -> Seq<u8>;

/// Calls `solana_program::hash::hash`. Claimed: the result is the SHA-256 digest of
/// `data` and depends on nothing else.
#[verifier::external_body]
pub(crate) fn sha256(data: &[u8]) -> (r: Address)
    ensures
        r@ == sha256_digest(data@),
{
    solana_program::hash::hash(data).to_bytes()
}

/// The program-derived address and bump seed that the search finds for `seeds` under
/// `program_id`, or `None` where it finds none.
pub uninterp spec fn program_address_found(seeds: Seq<Seq<u8>>, program_id: Seq<u8>) -> Option<(Seq<u8>, u8)>;

/// What a search for a program-derived address gives back: the address and its bump.
pub type FoundAddress = Option<(Address, u8)>;

/// `r` is the outcome of the search that `named` describes.
pub open spec fn found_as(r: FoundAddress, named: Option<(Seq<u8>, u8)>) -> bool {
    match r {
        Some((address, bump)) => named == Some((address@, bump)),
        None => named is None,
    }
}

/// Calls `Pubkey::try_find_program_address`. Claimed: the outcome depends on the seeds
/// and the program id alone; `None` (no viable bump seed, or seeds the derivation
/// refuses) is one of those outcomes, and the call does not panic.
#[verifier::external_body]
pub(crate) fn try_find_program_address(seeds: &Vec<Vec<u8>>, program_id: &Address) -> (r: FoundAddress)
    ensures
        found_as(r, program_address_found(seeds.deep_view(), program_id@)),
{
    let refs: Vec<&[u8]> = seeds.iter().map(|s| s.as_slice()).collect();
    let pid = Pubkey::new_from_array(*program_id);
    match Pubkey::try_find_program_address(&refs, &pid) {
        Some((address, bump)) => Some((address.to_bytes(), bump)),
        None => None,
    }
}

/// An instruction read from the instructions sysvar: its program id and data.
pub type LoadedInstruction = Result<(Address, Vec<u8>), XrefError>;

/// The program id and data of instruction `index` in the instructions sysvar whose
/// account data is `sysvar_data`, or `None` where that data holds no such instruction.
pub uninterp spec fn sysvar_instruction(index: usize, sysvar_data: Seq<u8>) -> Option<(Seq<u8>, Seq<u8>)>;

/// `r` is what loading an instruction gives when the sysvar holds `named` there.
pub open spec fn loaded_as(r: LoadedInstruction, named: Option<(Seq<u8>, Seq<u8>)>) -> bool {
    match named {
        Some((program_id, data)) => r matches Ok((p, d)) && p@ == program_id && d@ == data,
        None => r == LoadedInstruction::Err(XrefError::InvalidArgument),
    }
}

/// Calls `sysvar::instructions::load_instruction_at_checked` on an account with the
/// given key and data. Claimed: an account that is not the instructions sysvar gives
/// `UnsupportedSysvar`; otherwise the outcome depends on the index and the data alone,
/// and a failure is `InvalidArgument` (every failure of the sysvar's reader is an
/// out-of-bounds read, which it reports as `InvalidArgument`).
#[verifier::external_body]
#[allow(deprecated)]
pub(crate) fn load_instruction_at_checked(index: usize, sysvar_key: &Address, sysvar_data: &[u8]) -> (r: LoadedInstruction)
    ensures
        sysvar_key@ != SYSVAR_INSTRUCTIONS_ID@ ==> r == LoadedInstruction::Err(XrefError::UnsupportedSysvar),
        sysvar_key@ == SYSVAR_INSTRUCTIONS_ID@ ==> loaded_as(r, sysvar_instruction(index, sysvar_data@)),
{
    let (key, owner, mut lamports, mut data) = (Pubkey::new_from_array(*sysvar_key), Pubkey::default(), 0u64, sysvar_data.to_vec());
    let info = AccountInfo::new(&key, false, false, &mut lamports, &mut data, &owner, false, 0);
    match solana_program::sysvar::instructions::load_instruction_at_checked(index, &info) {
        Ok(ix) => Ok((ix.program_id.to_bytes(), ix.data)),
        Err(ProgramError::UnsupportedSysvar) => Err(XrefError::UnsupportedSysvar),
        Err(ProgramError::InvalidArgument) => Err(XrefError::InvalidArgument),
        Err(_) => Err(XrefError::InvalidInstructionData),
    }
}

/// Calls `borsh::to_vec` on a byte slice. Claimed, as borsh's format specifies: the
/// slice's length as a little-endian `u32`, then its bytes. Longer slices make
/// `to_vec` fail, which `requires` rules out.
#[verifier::external_body]
pub(crate) fn borsh_to_vec_bytes(data: &[u8]) -> (r: Vec<u8>)
    requires
        fits_u32(data@),
    ensures
        r@ == bytes_field(data@),
{
    borsh::to_vec(&data).unwrap()
}

} // verus!
