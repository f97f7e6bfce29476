use vstd::prelude::*;

use crate::account::AccountView;
use crate::address::Address;
use crate::error::XrefError;

verus! {

/// Deleting an ad: the program accepts the request and changes nothing.
pub fn delete_ad(program_id: &Address, instruction_data: &[u8], accounts: &[AccountView]) -> (r: Result<(), XrefError>)
    ensures
        r is Ok,
{
    Ok(())
}

} // verus!
