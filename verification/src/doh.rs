//! DNS-over-HTTPS answers: TXT records carrying the ECH configuration, and
//! A/AAAA records for the addresses of a name.
use vstd::prelude::*;
use base64::Engine;
use vstd::utf8::encode_utf8;
use crate::error::ProxyError;
use crate::socks5::IpAddress;
use crate::text::{
    chars_of, labeled_signed, labeled_text, signed_decimal, string_of_range, trim_char,
    trim_char_bounds,
};

verus! {

/// The DoH server queried by default.
pub const ALIDNS_DOH_URL: &'static str = "https://dns.alidns.com/dns-query";

/// The name whose TXT record holds Cloudflare's ECH configuration.
pub const CLOUDFLARE_ECH_DOMAIN: &'static str = "cloudflare-ech.com";

/// DNS record type of TXT records.
pub const RECORD_TXT: u16 = 16;

/// DNS record type of A (IPv4) records.
pub const RECORD_A: u16 = 1;

/// DNS record type of AAAA (IPv6) records.
pub const RECORD_AAAA: u16 = 28;

/// One answer of a DoH JSON response.
#[derive(Debug, Clone)]
pub struct DohAnswer {
    pub name: String,
    pub record_type: u16,
    pub ttl: u32,
    pub data: String,
}

/// A DoH JSON response.
#[derive(Debug, Clone)]
pub struct DohResponse {
    pub status: i32,
    pub answer: Option<Vec<DohAnswer>>,
}

/// A DoH error whose message is `m`.
pub open spec fn doh_error(e: ProxyError, m: Seq<char>) -> bool {
    e matches ProxyError::DohQueryFailed(s) && s@ == m
}

/// The answers of a response (none when the field is absent).
pub open spec fn answers(r: DohResponse) -> Seq<DohAnswer> {
    match r.answer {
        Some(a) => a@,
        None => Seq::<DohAnswer>::empty(),
    }
}

/// The data of the answers of type `t`, in order.
pub open spec fn data_of_type(ans: Seq<DohAnswer>, t: u16) -> Seq<Seq<char>>
    decreases ans.len(),
{
    if ans.len() == 0 {
        seq![]
    } else if ans.last().record_type == t {
        data_of_type(ans.drop_last(), t).push(ans.last().data@)
    } else {
        data_of_type(ans.drop_last(), t)
    }
}

/// What the `base64` crate's STANDARD engine decodes from `input` (padded
/// standard alphabet), or `None` when it reports an error.
pub uninterp spec fn base64_standard_decode(input: Seq<u8>) -> Option<Seq<u8>>;

/// `base64::engine::general_purpose::STANDARD.decode`.
#[verifier::external_body]
fn decode_base64(input: &str) -> (r: Option<Vec<u8>>)
    ensures
        r matches Some(v) ==> base64_standard_decode(encode_utf8(input@)) == Some(v@),
        r is None ==> base64_standard_decode(encode_utf8(input@)) is None,
{
    base64::engine::general_purpose::STANDARD.decode(input).ok()
}

/// The ECH configuration in the first TXT record that decodes as base64
/// once the quotes around it are removed.
pub open spec fn first_ech_config(records: Seq<Seq<char>>) -> Option<Seq<u8>>
    decreases records.len(),
{
    if records.len() == 0 {
        None
    } else {
        match base64_standard_decode(encode_utf8(trim_char(records[0], '"'))) {
            Some(b) => Some(b),
            None => first_ech_config(records.drop_first()),
        }
    }
}

/// The ECH configuration comes from the first record that decodes: when the
/// first record (quotes trimmed) decodes as base64, that decoding is the
/// configuration whatever records follow; when it does not, the records
/// after it decide; with no records there is none.
pub proof fn law_first_decodable_record_wins(r: Seq<char>, rest: Seq<Seq<char>>)
    ensures
        base64_standard_decode(encode_utf8(trim_char(r, '"'))) matches Some(b) ==> first_ech_config(
            seq![r] + rest,
        ) == Some(b),
        base64_standard_decode(encode_utf8(trim_char(r, '"'))) is None ==> first_ech_config(
            seq![r] + rest,
        ) == first_ech_config(rest),
        first_ech_config(Seq::<Seq<char>>::empty()) is None,
{
    let all = seq![r] + rest;
    assert(all[0] == r);
    assert(all.drop_first() =~= rest);
}

/// The data of the answers of type `record_type`.
fn answer_data(resp: &DohResponse, record_type: u16) -> (v: Vec<String>)
    ensures
        v@.map_values(|s: String| s@) == data_of_type(answers(*resp), record_type),
{
    let mut out: Vec<String> = Vec::new();
    match &resp.answer {
        None => {
            assert(out@.map_values(|s: String| s@) =~= data_of_type(answers(*resp), record_type));
            out
        },
        Some(ans) => {
            let mut i: usize = 0;
            while i < ans.len()
                invariant
                    i <= ans@.len(),
                    out@.map_values(|s: String| s@) == data_of_type(ans@.take(i as int), record_type),
                decreases ans@.len() - i,
            {
                let ghost before = out@;
                if ans[i].record_type == record_type {
                    out.push(ans[i].data.clone());
                    assert(out@.map_values(|s: String| s@) =~= before.map_values(|s: String| s@).push(ans@[i as int].data@));
                }
                assert(ans@.take(i + 1).drop_last() =~= ans@.take(i as int));
                i = i + 1;
            }
            assert(ans@.take(ans@.len() as int) =~= ans@);
            out
        },
    }
}

/// The TXT records of a response to a TXT query: an error unless the DNS
/// status is 0.
pub fn txt_records(resp: &DohResponse) -> (r: Result<Vec<String>, ProxyError>)
    ensures
        resp.status != 0 ==> (r matches Err(e) && doh_error(
            e,
            "DoH query failed with status: "@ + signed_decimal(resp.status as int),
        )),
        resp.status == 0 ==> (r matches Ok(v) && v@.map_values(|s: String| s@) == data_of_type(
            answers(*resp),
            RECORD_TXT,
        )),
{
    if resp.status != 0 {
        return Err(ProxyError::DohQueryFailed(labeled_signed("DoH query failed with status: ", resp.status)));
    }
    Ok(answer_data(resp, RECORD_TXT))
}

/// The address texts of a response to an A query (`ipv6` false) or an AAAA
/// query (`ipv6` true): an error unless the DNS status is 0.
pub fn address_records(resp: &DohResponse, ipv6: bool) -> (r: Result<Vec<String>, ProxyError>)
    ensures
        resp.status != 0 && !ipv6 ==> (r matches Err(e) && doh_error(
            e,
            "DoH A query failed with status: "@ + signed_decimal(resp.status as int),
        )),
        resp.status != 0 && ipv6 ==> (r matches Err(e) && doh_error(
            e,
            "DoH AAAA query failed with status: "@ + signed_decimal(resp.status as int),
        )),
        resp.status == 0 ==> (r matches Ok(v) && v@.map_values(|s: String| s@) == data_of_type(
            answers(*resp),
            if ipv6 {
                RECORD_AAAA
            } else {
                RECORD_A
            },
        )),
{
    if resp.status != 0 {
        if ipv6 {
            return Err(ProxyError::DohQueryFailed(labeled_signed("DoH AAAA query failed with status: ", resp.status)));
        } else {
            return Err(ProxyError::DohQueryFailed(labeled_signed("DoH A query failed with status: ", resp.status)));
        }
    }
    Ok(answer_data(resp, if ipv6 { RECORD_AAAA } else { RECORD_A }))
}

/// The ECH configuration from the TXT records of `cloudflare-ech.com`: the
/// first record that decodes as base64 once its quotes are removed.
pub fn ech_config_from_records(records: &Vec<String>) -> (r: Result<Vec<u8>, ProxyError>)
    ensures
        records@.len() == 0 ==> (r matches Err(e) && doh_error(
            e,
            "No TXT records found for "@ + CLOUDFLARE_ECH_DOMAIN@,
        )),
        records@.len() > 0 ==> match first_ech_config(records@.map_values(|s: String| s@)) {
            Some(b) => r matches Ok(v) && v@ == b,
            None => r matches Err(e) && doh_error(e, "No valid ECH config found in TXT records"@),
        },
{
    if records.len() == 0 {
        return Err(ProxyError::DohQueryFailed(labeled_text("No TXT records found for ", CLOUDFLARE_ECH_DOMAIN)));
    }
    let ghost all = records@.map_values(|s: String| s@);
    let mut i: usize = 0;
    assert(all.skip(0) =~= all);
    while i < records.len()
        invariant
            i <= records@.len(),
            all == records@.map_values(|s: String| s@),
            first_ech_config(all) == first_ech_config(all.skip(i as int)),
        decreases records@.len() - i,
    {
        let v = chars_of(records[i].as_str());
        let (a, b) = trim_char_bounds(&v, 0, v.len(), '"');
        assert(v@.subrange(0, v@.len() as int) =~= v@);
        let trimmed = string_of_range(&v, a, b);
        assert(all.skip(i as int)[0] == records@[i as int]@);
        assert(all.skip(i as int).drop_first() =~= all.skip(i + 1));
        match decode_base64(trimmed.as_str()) {
            Some(bytes) => {
                return Ok(bytes);
            },
            None => {},
        }
        i = i + 1;
    }
    assert(all.skip(records@.len() as int) =~= Seq::<Seq<char>>::empty());
    Err(ProxyError::DohQueryFailed("No valid ECH config found in TXT records".to_owned()))
}

/// The addresses of `domain`: those of the A query, then those of the AAAA
/// query (a failed query counts as none); an error when there are none.
pub fn merge_addresses(
    domain: &str,
    v4: Option<Vec<IpAddress>>,
    v6: Option<Vec<IpAddress>>,
) -> (r: Result<Vec<IpAddress>, ProxyError>)
    ensures
        ({
            let all = match v4 {
                Some(a) => a@,
                None => Seq::<IpAddress>::empty(),
            } + match v6 {
                Some(a) => a@,
                None => Seq::<IpAddress>::empty(),
            };
            &&& all.len() == 0 ==> (r matches Err(e) && doh_error(
                e,
                "No IP addresses found for "@ + domain@,
            ))
            &&& all.len() > 0 ==> (r matches Ok(v) && v@ == all)
        }),
{
    let mut ips: Vec<IpAddress> = Vec::new();
    match v4 {
        Some(mut a) => ips.append(&mut a),
        None => {},
    }
    match v6 {
        Some(mut a) => ips.append(&mut a),
        None => {},
    }
    if ips.len() == 0 {
        return Err(ProxyError::DohQueryFailed(labeled_text("No IP addresses found for ", domain)));
    }
    Ok(ips)
}

} // verus!
