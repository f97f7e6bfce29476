use vstd::prelude::*;

use crate::codec::{
    bool_byte, bytes_field, fits_u32, lemma_bytes_field_unique, lemma_split_unique,
    lemma_string_field_unique, push_byte_field, push_string_field, read_byte_field,
    read_string_field, starts_with_field, starts_with_string, string_field, string_fits,
};
use crate::error::XrefError;

verus! {

/// An advertisement posted by a merchant.
pub struct Ad {
    /// Address of the page with the purchase page for the ad.
    pub url: String,
    /// Name of the advertised product.
    pub name: String,
    /// The merchant's industry.
    pub industry_code: u8,
    /// Total reward rate for the product, in percent.
    pub total_rate: u8,
    /// Reward rate paid to the referrer, in percent.
    pub referrer_rate: u8,
    /// Reward rate paid to the user, in percent.
    pub user_rate: u8,
    /// Whether the ad is direct (`true`) or indirect (`false`).
    pub type_: bool,
    /// Parameters the merchant requires.
    pub additional_params: Vec<u8>,
}

/// The ad's fields fit their length prefixes.
pub open spec fn ad_encodable(ad: Ad) -> bool {
    &&& string_fits(ad.url@)
    &&& string_fits(ad.name@)
    &&& fits_u32(ad.additional_params@)
}

/// The five single-byte fields of an ad, in order.
pub open spec fn ad_fixed_bytes(ad: Ad) -> Seq<u8> {
    seq![ad.industry_code, ad.total_rate, ad.referrer_rate, ad.user_rate, bool_byte(ad.type_)]
}

/// An ad's bytes: url, name, the five single-byte fields, then the parameters.
pub open spec fn ad_bytes(ad: Ad) -> Seq<u8> {
    string_field(ad.url@) + (string_field(ad.name@) + (ad_fixed_bytes(ad) + bytes_field(
        ad.additional_params@,
    )))
}

/// Two ads with the same fields, each field taken by its view.
pub open spec fn same_ad(a: Ad, b: Ad) -> bool {
    &&& a.url@ == b.url@
    &&& a.name@ == b.name@
    &&& a.industry_code == b.industry_code
    &&& a.total_rate == b.total_rate
    &&& a.referrer_rate == b.referrer_rate
    &&& a.user_rate == b.user_rate
    &&& a.type_ == b.type_
    &&& a.additional_params@ == b.additional_params@
}

/// Law: distinct ads have distinct bytes, so reading an ad's bytes gives that ad back.
pub proof fn lemma_ad_bytes_injective(a: Ad, b: Ad)
    requires
        ad_encodable(a),
        ad_encodable(b),
        ad_bytes(a) == ad_bytes(b),
    ensures
        same_ad(a, b),
{
    let ra = string_field(a.name@) + (ad_fixed_bytes(a) + bytes_field(a.additional_params@));
    let rb = string_field(b.name@) + (ad_fixed_bytes(b) + bytes_field(b.additional_params@));
    lemma_string_field_unique(a.url@, ra, b.url@, rb);
    lemma_string_field_unique(
        a.name@,
        ad_fixed_bytes(a) + bytes_field(a.additional_params@),
        b.name@,
        ad_fixed_bytes(b) + bytes_field(b.additional_params@),
    );
    lemma_split_unique(
        ad_fixed_bytes(a),
        bytes_field(a.additional_params@),
        ad_fixed_bytes(b),
        bytes_field(b.additional_params@),
    );
    assert(ad_fixed_bytes(a)[4] == ad_fixed_bytes(b)[4]);
    assert(bytes_field(a.additional_params@) + Seq::<u8>::empty() =~= bytes_field(
        a.additional_params@,
    ));
    assert(bytes_field(b.additional_params@) + Seq::<u8>::empty() =~= bytes_field(
        b.additional_params@,
    ));
    lemma_bytes_field_unique(
        a.additional_params@,
        Seq::<u8>::empty(),
        b.additional_params@,
        Seq::<u8>::empty(),
    );
}

/// Reads an ad from its bytes. It succeeds exactly when the bytes are the encoding of
/// some ad, and then returns that ad; otherwise the error is `BorshIoError`.
pub fn decode_ad(data: &[u8]) -> (r: Result<Ad, XrefError>)
    ensures
        r matches Ok(ad) ==> ad_encodable(ad) && ad_bytes(ad) == data@,
        r matches Err(e) ==> e == XrefError::BorshIoError && forall|ad: Ad|
            ad_encodable(ad) ==> #[trigger] ad_bytes(ad) != data@,
{
    let ghost d = data@;
    assert(d.skip(0) =~= d);
    let (url, p1) = match read_string_field(data, 0) {
        Some(x) => x,
        None => {
            assert forall|ad: Ad| ad_encodable(ad) implies #[trigger] ad_bytes(ad) != d by {
                if ad_bytes(ad) == d {
                    assert(starts_with_string(
                        d.skip(0),
                        ad.url@,
                        string_field(ad.name@) + (ad_fixed_bytes(ad) + bytes_field(
                            ad.additional_params@,
                        )),
                    ));
                }
            }
            return Err(XrefError::BorshIoError);
        },
    };
    // Every ad with these bytes has this url, and its remaining fields start at `p1`.
    assert forall|ad: Ad| ad_encodable(ad) && #[trigger] ad_bytes(ad) == d implies ad.url@
        == url@ && d.skip(p1 as int) == string_field(ad.name@) + (ad_fixed_bytes(ad)
        + bytes_field(ad.additional_params@)) by {
        lemma_string_field_unique(
            ad.url@,
            string_field(ad.name@) + (ad_fixed_bytes(ad) + bytes_field(ad.additional_params@)),
            url@,
            d.skip(p1 as int),
        );
    }
    let (name, p2) = match read_string_field(data, p1) {
        Some(x) => x,
        None => {
            assert forall|ad: Ad| ad_encodable(ad) implies #[trigger] ad_bytes(ad) != d by {
                if ad_bytes(ad) == d {
                    assert(starts_with_string(
                        d.skip(p1 as int),
                        ad.name@,
                        ad_fixed_bytes(ad) + bytes_field(ad.additional_params@),
                    ));
                }
            }
            return Err(XrefError::BorshIoError);
        },
    };
    assert forall|ad: Ad| ad_encodable(ad) && #[trigger] ad_bytes(ad) == d implies ad.name@
        == name@ && d.skip(p2 as int) == ad_fixed_bytes(ad) + bytes_field(
        ad.additional_params@,
    ) by {
        lemma_string_field_unique(
            ad.name@,
            ad_fixed_bytes(ad) + bytes_field(ad.additional_params@),
            name@,
            d.skip(p2 as int),
        );
    }
    if data.len() - p2 < 5 {
        assert forall|ad: Ad| ad_encodable(ad) implies #[trigger] ad_bytes(ad) != d by {
            if ad_bytes(ad) == d {
                assert((ad_fixed_bytes(ad) + bytes_field(ad.additional_params@)).len() >= 5);
            }
        }
        return Err(XrefError::BorshIoError);
    }
    let industry_code = data[p2];
    let total_rate = data[p2 + 1];
    let referrer_rate = data[p2 + 2];
    let user_rate = data[p2 + 3];
    let type_byte = data[p2 + 4];
    let p7 = p2 + 5;
    let ghost fixed = seq![industry_code, total_rate, referrer_rate, user_rate, type_byte];
    assert(d.skip(p2 as int) =~= fixed + d.skip(p7 as int));
    assert forall|ad: Ad| ad_encodable(ad) && #[trigger] ad_bytes(ad) == d implies ad_fixed_bytes(
        ad,
    ) == fixed && d.skip(p7 as int) == bytes_field(ad.additional_params@) by {
        lemma_split_unique(
            ad_fixed_bytes(ad),
            bytes_field(ad.additional_params@),
            fixed,
            d.skip(p7 as int),
        );
    }
    if type_byte > 1 {
        assert forall|ad: Ad| ad_encodable(ad) implies #[trigger] ad_bytes(ad) != d by {
            if ad_bytes(ad) == d {
                assert(ad_fixed_bytes(ad)[4] == fixed[4]);
            }
        }
        return Err(XrefError::BorshIoError);
    }
    let type_ = type_byte == 1;
    let (additional_params, p8) = match read_byte_field(data, p7) {
        Some(x) => x,
        None => {
            assert forall|ad: Ad| ad_encodable(ad) implies #[trigger] ad_bytes(ad) != d by {
                if ad_bytes(ad) == d {
                    assert(bytes_field(ad.additional_params@) + Seq::<u8>::empty() =~= bytes_field(
                        ad.additional_params@,
                    ));
                    assert(starts_with_field(
                        d.skip(p7 as int),
                        ad.additional_params@,
                        Seq::<u8>::empty(),
                    ));
                }
            }
            return Err(XrefError::BorshIoError);
        },
    };
    if p8 != data.len() {
        assert forall|ad: Ad| ad_encodable(ad) implies #[trigger] ad_bytes(ad) != d by {
            if ad_bytes(ad) == d {
                assert(bytes_field(ad.additional_params@) + Seq::<u8>::empty() =~= bytes_field(
                    ad.additional_params@,
                ));
                lemma_bytes_field_unique(
                    ad.additional_params@,
                    Seq::<u8>::empty(),
                    additional_params@,
                    d.skip(p8 as int),
                );
            }
        }
        return Err(XrefError::BorshIoError);
    }
    let ad = Ad { url, name, industry_code, total_rate, referrer_rate, user_rate, type_, additional_params };
    proof {
        assert(d.skip(p8 as int) =~= Seq::<u8>::empty());
        assert(ad_fixed_bytes(ad) =~= fixed);
        assert(d.skip(p7 as int) =~= bytes_field(ad.additional_params@));
        assert(d =~= ad_bytes(ad));
    }
    Ok(ad)
}

/// Writes an ad's bytes.
pub fn encode_ad(ad: &Ad) -> (r: Vec<u8>)
    requires
        ad_encodable(*ad),
    ensures
        r@ == ad_bytes(*ad),
{
    let mut out: Vec<u8> = Vec::new();
    push_string_field(&mut out, &ad.url);
    push_string_field(&mut out, &ad.name);
    out.push(ad.industry_code);
    out.push(ad.total_rate);
    out.push(ad.referrer_rate);
    out.push(ad.user_rate);
    out.push(if ad.type_ {
        1u8
    } else {
        0u8
    });
    push_byte_field(&mut out, ad.additional_params.as_slice());
    assert(out@ =~= ad_bytes(*ad));
    out
}

} // verus!
