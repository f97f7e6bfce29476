use xref::error::XrefError;
use xref::state::ad::{decode_ad, encode_ad, Ad};
use xref::state::dispute::decode_dispute;
use xref::state::txn::{decode_ts, decode_txn_data, encode_ts, Ts};
use xref::state::user::{decode_user, encode_rewards, encode_user, User};

fn ad_tuple() -> (String, String, u8, u8, u8, u8, bool, Vec<u8>) {
    (
        "https://shop.example/buy".to_string(),
        "Réglisse".to_string(),
        7,
        10,
        4,
        3,
        true,
        vec![1, 2, 3],
    )
}

#[test]
fn ad_bytes_match_borsh_both_ways() {
    let t = ad_tuple();
    let bytes = borsh::to_vec(&t).unwrap();
    let ad = decode_ad(&bytes).unwrap();
    assert_eq!(ad.url, t.0);
    assert_eq!(ad.name, t.1);
    assert_eq!(ad.industry_code, 7);
    assert_eq!(ad.total_rate, 10);
    assert_eq!(ad.referrer_rate, 4);
    assert_eq!(ad.user_rate, 3);
    assert!(ad.type_);
    assert_eq!(ad.additional_params, vec![1, 2, 3]);
    assert_eq!(encode_ad(&ad), bytes);
}

#[test]
fn ad_encoding_exact_bytes() {
    let ad = Ad {
        url: "ab".to_string(),
        name: "".to_string(),
        industry_code: 1,
        total_rate: 2,
        referrer_rate: 3,
        user_rate: 4,
        type_: false,
        additional_params: vec![9],
    };
    assert_eq!(
        encode_ad(&ad),
        vec![2, 0, 0, 0, b'a', b'b', 0, 0, 0, 0, 1, 2, 3, 4, 0, 1, 0, 0, 0, 9]
    );
}

#[test]
fn ad_rejects_what_borsh_rejects() {
    let good = borsh::to_vec(&ad_tuple()).unwrap();
    // trailing byte
    let mut trailing = good.clone();
    trailing.push(0);
    assert_eq!(decode_ad(&trailing).err(), Some(XrefError::BorshIoError));
    assert!(borsh::from_slice::<(String, String, u8, u8, u8, u8, bool, Vec<u8>)>(&trailing).is_err());
    // truncated
    let truncated = &good[..good.len() - 1];
    assert_eq!(decode_ad(truncated).err(), Some(XrefError::BorshIoError));
    // bool byte other than 0 or 1
    let empty = ("".to_string(), "".to_string(), 0u8, 0u8, 0u8, 0u8, false, Vec::<u8>::new());
    let mut bad_bool = borsh::to_vec(&empty).unwrap();
    bad_bool[12] = 2;
    assert_eq!(decode_ad(&bad_bool).err(), Some(XrefError::BorshIoError));
    assert!(borsh::from_slice::<(String, String, u8, u8, u8, u8, bool, Vec<u8>)>(&bad_bool).is_err());
    // invalid UTF-8 in the url
    let bad_utf8 = vec![1, 0, 0, 0, 0xff, 0, 0, 0, 0, 0, 0, 0, 0, 0, 0, 0, 0, 0];
    assert_eq!(decode_ad(&bad_utf8).err(), Some(XrefError::BorshIoError));
    assert!(borsh::from_slice::<(String, String, u8, u8, u8, u8, bool, Vec<u8>)>(&bad_utf8).is_err());
    // empty input
    assert_eq!(decode_ad(&[]).err(), Some(XrefError::BorshIoError));
}

#[test]
fn txn_data_matches_borsh() {
    let t = (vec![5u8, 6], vec![1u8; 64], vec![2u8; 64], 99u8, -5i64, vec![3u8; 64], i64::MIN);
    let bytes = borsh::to_vec(&t).unwrap();
    let txn = decode_txn_data(&bytes).unwrap();
    assert_eq!(txn.b64txn, t.0);
    assert_eq!(txn.merchant_signature, t.1);
    assert_eq!(txn.user_signature, t.2);
    assert_eq!(txn.cost, 99);
    assert_eq!(txn.mu_timestamp, -5);
    assert_eq!(txn.referrer_signature, t.5);
    assert_eq!(txn.referrer_timestamp, i64::MIN);
    assert_eq!(decode_txn_data(&bytes[..bytes.len() - 1]).err(), Some(XrefError::BorshIoError));
    let mut longer = bytes.clone();
    longer.push(1);
    assert_eq!(decode_txn_data(&longer).err(), Some(XrefError::BorshIoError));
}

#[test]
fn user_matches_borsh() {
    let t = (123456789u64, vec![4u8, 5, 6]);
    let bytes = borsh::to_vec(&t).unwrap();
    let u = decode_user(&bytes).unwrap();
    assert_eq!(u.rewards, 123456789);
    assert_eq!(u.root_hash, vec![4, 5, 6]);
    assert_eq!(encode_user(&u), bytes);
    assert_eq!(encode_user(&User { rewards: 1, root_hash: vec![] }), vec![1, 0, 0, 0, 0, 0, 0, 0, 0, 0, 0, 0]);
    assert_eq!(decode_user(&bytes[..7]).err(), Some(XrefError::BorshIoError));
    assert_eq!(encode_rewards(0x0102030405060708), vec![8, 7, 6, 5, 4, 3, 2, 1]);
    assert_eq!(encode_rewards(5), borsh::to_vec(&5u64).unwrap());
}

#[test]
fn ts_matches_borsh() {
    let bytes = borsh::to_vec(&-300i64).unwrap();
    assert_eq!(decode_ts(&bytes).unwrap().timestamp, -300);
    assert_eq!(encode_ts(&Ts { timestamp: 1_700_000_000 }), borsh::to_vec(&1_700_000_000i64).unwrap());
    assert_eq!(decode_ts(&[0; 7]).err(), Some(XrefError::BorshIoError));
    assert_eq!(decode_ts(&[0; 9]).err(), Some(XrefError::BorshIoError));
}

#[test]
fn dispute_matches_borsh() {
    let t = (vec![[1u8; 32], [2u8; 32]], vec![[3u8; 32]], vec![7u8, 8], [9u8; 32]);
    let bytes = borsh::to_vec(&t).unwrap();
    let dd = decode_dispute(&bytes).unwrap();
    assert_eq!(dd.txns, t.0);
    assert_eq!(dd.malicious_actors, t.1);
    assert_eq!(dd.justification, t.2);
    assert_eq!(dd.reporter, t.3);
    assert_eq!(decode_dispute(&bytes[..bytes.len() - 1]).err(), Some(XrefError::BorshIoError));
    // a list that claims more addresses than the data holds
    let mut claims_more = bytes.clone();
    claims_more[0] = 200;
    assert_eq!(decode_dispute(&claims_more).err(), Some(XrefError::BorshIoError));
}
