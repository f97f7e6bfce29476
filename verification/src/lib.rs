//! Verified core of the xref referral program: account checks, instruction
//! routing, signature-instruction layout checks and the byte layouts of the
//! program's account data.

pub mod error;
pub mod address;
pub mod bytes;
pub mod instructions;
pub mod codec;
pub mod outside;
pub mod state;
pub mod account;
pub mod entry;
pub mod router;
