use vstd::prelude::*;

use crate::address::Address;

verus! {

/// What the program reads of an account it is handed.
pub struct AccountView {
    pub key: Address,
    pub owner: Address,
    pub is_signer: bool,
    pub is_writable: bool,
    pub lamports: u64,
    pub data: Vec<u8>,
}

/// A request to the system program to create an account at a program-derived
/// address, signed for with `signer_seeds`, and the bytes the new account starts
/// with. The lamports it is funded with are the rent-exempt minimum for `space`.
pub struct CreateAccountPlan {
    pub payer: Address,
    pub new_account: Address,
    pub space: u64,
    pub owner: Address,
    pub signer_seeds: Vec<Vec<u8>>,
    pub initial_data: Vec<u8>,
}

/// A [`CreateAccountPlan`] with every field taken by its view.
pub struct CreateAccountSpec {
    pub payer: Seq<u8>,
    pub new_account: Seq<u8>,
    pub space: u64,
    pub owner: Seq<u8>,
    pub signer_seeds: Seq<Seq<u8>>,
    pub initial_data: Seq<u8>,
}

impl View for CreateAccountPlan {
    type V = CreateAccountSpec;

    open spec fn view(&self) -> CreateAccountSpec {
        CreateAccountSpec {
            payer: self.payer@,
            new_account: self.new_account@,
            space: self.space,
            owner: self.owner@,
            signer_seeds: self.signer_seeds.deep_view(),
            initial_data: self.initial_data@,
        }
    }
}

/// A request to the system program to move all of a program-derived account's
/// lamports to another account, signed for with `signer_seeds`.
pub struct TransferPlan {
    pub from: Address,
    pub to: Address,
    pub lamports: u64,
    pub signer_seeds: Vec<Vec<u8>>,
}

/// A [`TransferPlan`] with every field taken by its view.
pub struct TransferSpec {
    pub from: Seq<u8>,
    pub to: Seq<u8>,
    pub lamports: u64,
    pub signer_seeds: Seq<Seq<u8>>,
}

impl View for TransferPlan {
    type V = TransferSpec;

    open spec fn view(&self) -> TransferSpec {
        TransferSpec {
            from: self.from@,
            to: self.to@,
            lamports: self.lamports,
            signer_seeds: self.signer_seeds.deep_view(),
        }
    }
}

/// An account as an instruction names it.
pub struct AccountMeta {
    pub pubkey: Address,
    pub is_signer: bool,
    pub is_writable: bool,
}

/// An instruction for another program: its id, its accounts and its data.
pub struct CpiInstruction {
    pub program_id: Address,
    pub accounts: Vec<AccountMeta>,
    pub data: Vec<u8>,
}

/// A list of byte vectors, seen whole, is the list of their bytes.
pub proof fn lemma_byte_vecs_deep_view(v: Vec<Vec<u8>>)
    ensures
        v.deep_view().len() == v@.len(),
        forall|i: int| 0 <= i < v@.len() ==> #[trigger] v.deep_view()[i] == v@[i]@,
{
    assert forall|i: int| 0 <= i < v@.len() implies #[trigger] v.deep_view()[i] == v@[i]@ by {
        assert(v@[i].deep_view() =~= v@[i]@);
    }
}

/// `r` is the outcome `s` describes, the value taken by its view.
pub open spec fn same_outcome<T: View, E>(r: Result<T, E>, s: Result<T::V, E>) -> bool {
    match (r, s) {
        (Ok(a), Ok(b)) => a@ == b,
        (Err(e), Err(f)) => e == f,
        _ => false,
    }
}

/// `r` is the outcome `s` describes, where `None` on both sides is a stop of the
/// program before it has an outcome.
pub open spec fn same_outcome_or_stop<T: View, E>(r: Option<Result<T, E>>, s: Option<Result<T::V, E>>) -> bool {
    match (r, s) {
        (Some(a), Some(b)) => same_outcome(a, b),
        (None, None) => true,
        _ => false,
    }
}

/// `o` holds the bytes `s` describes, if any.
pub open spec fn same_bytes_option(o: Option<Vec<u8>>, s: Option<Seq<u8>>) -> bool {
    match (o, s) {
        (Some(a), Some(b)) => a@ == b,
        (None, None) => true,
        _ => false,
    }
}

} // verus!
