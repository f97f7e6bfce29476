pub mod ad;
pub mod txn;
pub mod user;
pub mod dispute;
