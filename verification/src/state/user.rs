use vstd::prelude::*;

use crate::codec::{
    bytes_field, fits_u32, le_u64, lemma_bytes_field_unique, lemma_le_u64_injective,
    lemma_split_unique, push_byte_field, push_u64, read_byte_field, read_u64, starts_with_field,
};
use crate::error::XrefError;

verus! {

/// The rewards account of a user or a referrer.
pub struct User {
    /// Rewards collected so far.
    pub rewards: u64,
    pub root_hash: Vec<u8>,
}

/// The root hash fits its length prefix.
pub open spec fn user_encodable(u: User) -> bool {
    fits_u32(u.root_hash@)
}

/// A rewards account's bytes: the rewards, then the root hash.
pub open spec fn user_bytes(u: User) -> Seq<u8> {
    le_u64(u.rewards) + bytes_field(u.root_hash@)
}

/// Law: distinct rewards accounts have distinct bytes.
pub proof fn lemma_user_bytes_injective(a: User, b: User)
    requires
        user_encodable(a),
        user_encodable(b),
        user_bytes(a) == user_bytes(b),
    ensures
        a.rewards == b.rewards,
        a.root_hash@ == b.root_hash@,
{
    lemma_split_unique(
        le_u64(a.rewards),
        bytes_field(a.root_hash@),
        le_u64(b.rewards),
        bytes_field(b.root_hash@),
    );
    lemma_le_u64_injective(a.rewards, b.rewards);
    assert(bytes_field(a.root_hash@) + Seq::<u8>::empty() =~= bytes_field(a.root_hash@));
    assert(bytes_field(b.root_hash@) + Seq::<u8>::empty() =~= bytes_field(b.root_hash@));
    lemma_bytes_field_unique(a.root_hash@, Seq::<u8>::empty(), b.root_hash@, Seq::<u8>::empty());
}

/// Reads a rewards account. It succeeds exactly when the bytes are the encoding of
/// some rewards account, and then returns it; otherwise the error is `BorshIoError`.
pub fn decode_user(data: &[u8]) -> (r: Result<User, XrefError>)
    ensures
        r matches Ok(u) ==> user_encodable(u) && user_bytes(u) == data@,
        r matches Err(e) ==> e == XrefError::BorshIoError && forall|u: User|
            user_encodable(u) ==> #[trigger] user_bytes(u) != data@,
{
    let ghost d = data@;
    assert(d.skip(0) =~= d);
    let (rewards, p1) = match read_u64(data, 0) {
        Some(x) => x,
        None => {
            assert forall|u: User| user_encodable(u) implies #[trigger] user_bytes(u) != d by {
                if user_bytes(u) == d {
                    assert(user_bytes(u).len() >= 8);
                }
            }
            return Err(XrefError::BorshIoError);
        },
    };
    assert forall|u: User| user_encodable(u) && #[trigger] user_bytes(u) == d implies u.rewards
        == rewards && d.skip(p1 as int) == bytes_field(u.root_hash@) by {
        lemma_split_unique(le_u64(u.rewards), bytes_field(u.root_hash@), le_u64(rewards), d.skip(p1 as int));
        lemma_le_u64_injective(u.rewards, rewards);
    }
    let (root_hash, p2) = match read_byte_field(data, p1) {
        Some(x) => x,
        None => {
            assert forall|u: User| user_encodable(u) implies #[trigger] user_bytes(u) != d by {
                if user_bytes(u) == d {
                    assert(bytes_field(u.root_hash@) + Seq::<u8>::empty() =~= bytes_field(u.root_hash@));
                    assert(starts_with_field(d.skip(p1 as int), u.root_hash@, Seq::<u8>::empty()));
                }
            }
            return Err(XrefError::BorshIoError);
        },
    };
    if p2 != data.len() {
        assert forall|u: User| user_encodable(u) implies #[trigger] user_bytes(u) != d by {
            if user_bytes(u) == d {
                assert(bytes_field(u.root_hash@) + Seq::<u8>::empty() =~= bytes_field(u.root_hash@));
                lemma_bytes_field_unique(
                    u.root_hash@,
                    Seq::<u8>::empty(),
                    root_hash@,
                    d.skip(p2 as int),
                );
            }
        }
        return Err(XrefError::BorshIoError);
    }
    let u = User { rewards, root_hash };
    proof {
        assert(d.skip(p2 as int) =~= Seq::<u8>::empty());
        assert(d.skip(p1 as int) =~= bytes_field(u.root_hash@));
        assert(d =~= user_bytes(u));
    }
    Ok(u)
}

/// Writes a rewards account's bytes.
pub fn encode_user(u: &User) -> (r: Vec<u8>)
    requires
        user_encodable(*u),
    ensures
        r@ == user_bytes(*u),
{
    let mut out: Vec<u8> = Vec::new();
    push_u64(&mut out, u.rewards);
    push_byte_field(&mut out, u.root_hash.as_slice());
    assert(out@ =~= user_bytes(*u));
    out
}

/// Writes a reward amount alone: the eight bytes a new rewards account starts with.
pub fn encode_rewards(rewards: u64) -> (r: Vec<u8>)
    ensures
        r@ == le_u64(rewards),
{
    let mut out: Vec<u8> = Vec::new();
    push_u64(&mut out, rewards);
    assert(out@ =~= le_u64(rewards));
    out
}

} // verus!
