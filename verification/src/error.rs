use vstd::prelude::*;

verus! {

/// The errors the program reports; each mirrors the runtime error of the same name.
/// `Program` carries the numeric code of an error that came from the runtime itself
/// (a sysvar read, for instance) and is passed on unchanged.
#[derive(Debug, Clone, Copy, PartialEq, Eq, Structural)]
pub enum XrefError {
    InvalidArgument,
    InvalidInstructionData,
    InvalidAccountData,
    AccountAlreadyInitialized,
    NotEnoughAccountKeys,
    AccountBorrowFailed,
    IncorrectProgramId,
    InvalidSeeds,
    BorshIoError,
    UnsupportedSysvar,
    IllegalOwner,
    InvalidAccountOwner,
    Program(u64),
}

} // verus!
