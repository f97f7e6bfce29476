pub mod post_txn;
pub mod create_user;
pub mod create_ad;
pub mod delete_user;
pub mod dispute_txn;
pub mod create_referrer;
pub mod delete_ad;
