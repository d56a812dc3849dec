//! Utility endpoints: the BTC/USD price, the production IP list, and the
//! region-support lookup for an IP address.
//!
//! Each endpoint has a URL builder and a decoder. The decoder takes the raw
//! outcome of the HTTP exchange — the request URL, the status code and the
//! body text — and returns the typed response or a [`ZebedeeError`].

use vstd::prelude::*;
use vstd::string::StringExecFns;

use crate::ZebedeeClient;
use crate::error::{spec_is_decode_error, spec_is_status_error, spec_status_ok, status_ok};
use crate::error::{DecodeFailure, ZebedeeError};
use crate::json::{
    elems_view, get_opt_bool, get_opt_string, get_req_bool, get_req_string, members_view,
    obj_lookup, opt_view, parse_json, spec_obj_get, spec_opt_bool, spec_opt_str, spec_parse_json,
    spec_req_bool, spec_req_str, spec_str_elems, str_elems, Json, JsonV,
};

verus! {

/// The BTC/USD price envelope.
#[derive(Debug)]
pub struct GetBtcUsdRes {
    pub success: Option<bool>,
    pub data: Option<BtcUsdData>,
    pub message: Option<String>,
}

/// The price record: the price and its timestamp, both as the service
/// writes them, string-encoded.
#[derive(Debug)]
pub struct BtcUsdData {
    pub btc_usd_price: String,
    pub btc_usd_timestamp: String,
}

/// The production IP list envelope.
#[derive(Debug)]
pub struct GetProdIpsRes {
    pub success: Option<bool>,
    pub data: Option<IpData>,
    pub message: Option<String>,
}

/// The list of the service's production IP addresses.
#[derive(Debug)]
pub struct IpData {
    pub ips: Vec<String>,
}

/// The region-support envelope.
#[derive(Debug)]
pub struct GetIsSupportedRegionByIpRes {
    pub success: Option<bool>,
    pub data: Option<RegionIpData>,
    pub message: Option<String>,
}

/// Where an IP address is from and whether the service supports it there.
#[derive(Debug)]
pub struct RegionIpData {
    pub ip_address: String,
    pub is_supported: bool,
    pub ip_country: String,
    pub ip_region: String,
}

/// The documented shape of the price record.
pub open spec fn spec_btc_usd_data_shape(j: JsonV) -> bool {
    &&& j is Obj
    &&& spec_req_str(j->Obj_0, "btcUsdPrice"@) is Ok
    &&& spec_req_str(j->Obj_0, "btcUsdTimestamp"@) is Ok
}

/// Whether `d` carries exactly the fields of the price record `j`.
pub open spec fn spec_btc_usd_data_matches(j: JsonV, d: BtcUsdData) -> bool {
    &&& j is Obj
    &&& spec_req_str(j->Obj_0, "btcUsdPrice"@) == Ok::<_, ()>(d.btc_usd_price@)
    &&& spec_req_str(j->Obj_0, "btcUsdTimestamp"@) == Ok::<_, ()>(d.btc_usd_timestamp@)
}

/// Reads the price record out of its JSON value: `Ok` exactly on the
/// documented shape, and then every field is the JSON field's text.
pub fn btc_usd_data_from_json(j: &Json) -> (r: Result<BtcUsdData, String>)
    ensures
        r is Ok <==> spec_btc_usd_data_shape(j@),
        r matches Ok(d) ==> spec_btc_usd_data_matches(j@, d),
{
    let fields = match j {
        Json::Obj(f) => f,
        _ => { return Err(String::from_str("$")); },
    };
    proof {
        assert(j@ == JsonV::Obj(members_view(*fields, 0)));
    }
    let btc_usd_price = match get_req_string(fields, "btcUsdPrice") {
        Ok(v) => v,
        Err(_) => { return Err(String::from_str("btcUsdPrice")); },
    };
    let btc_usd_timestamp = match get_req_string(fields, "btcUsdTimestamp") {
        Ok(v) => v,
        Err(_) => { return Err(String::from_str("btcUsdTimestamp")); },
    };
    Ok(BtcUsdData { btc_usd_price, btc_usd_timestamp })
}

/// The documented shape of the whole price envelope: optional success flag,
/// optional message, and an optional (possibly null) price record.
pub open spec fn spec_btc_usd_shape(j: JsonV) -> bool {
    &&& j is Obj
    &&& spec_opt_bool(j->Obj_0, "success"@) is Ok
    &&& spec_opt_str(j->Obj_0, "message"@) is Ok
    &&& match spec_obj_get(j->Obj_0, "data"@) {
        None => true,
        Some(d) => d is Null || spec_btc_usd_data_shape(d),
    }
}

/// Whether `r` reflects the envelope `j` exactly: each optional field is set
/// if and only if the key is present and non-null, and then holds its value.
pub open spec fn spec_btc_usd_matches(j: JsonV, r: GetBtcUsdRes) -> bool {
    &&& j is Obj
    &&& spec_opt_bool(j->Obj_0, "success"@) == Ok::<_, ()>(r.success)
    &&& spec_opt_str(j->Obj_0, "message"@) == Ok::<_, ()>(opt_view(r.message))
    &&& match spec_obj_get(j->Obj_0, "data"@) {
        None => r.data is None,
        Some(d) => if d is Null {
            r.data is None
        } else {
            r.data matches Some(dd) && spec_btc_usd_data_matches(d, dd)
        },
    }
}

/// Reads the price envelope out of its JSON value.
pub fn btc_usd_res_from_json(j: &Json) -> (r: Result<GetBtcUsdRes, String>)
    ensures
        r is Ok <==> spec_btc_usd_shape(j@),
        r matches Ok(res) ==> spec_btc_usd_matches(j@, res),
{
    let fields = match j {
        Json::Obj(f) => f,
        _ => { return Err(String::from_str("$")); },
    };
    proof {
        assert(j@ == JsonV::Obj(members_view(*fields, 0)));
    }
    let success = match get_opt_bool(fields, "success") {
        Ok(v) => v,
        Err(_) => { return Err(String::from_str("success")); },
    };
    let message = match get_opt_string(fields, "message") {
        Ok(v) => v,
        Err(_) => { return Err(String::from_str("message")); },
    };
    let data = match obj_lookup(fields, "data") {
        None => None,
        Some(d) => match d {
            Json::Null => None,
            _ => match btc_usd_data_from_json(d) {
                Ok(x) => Some(x),
                Err(e) => { return Err(e); },
            },
        },
    };
    Ok(GetBtcUsdRes { success, data, message })
}

/// The URL of the BTC/USD price endpoint under the client's domain.
pub fn btc_usd_url(client: &ZebedeeClient) -> (u: String)
    ensures
        u@ == client.domain@ + "/v0/btcusd"@,
{
    let mut u = client.domain.clone();
    u.append("/v0/btcusd");
    u
}

/// Decodes one price exchange. A non-success status yields the status-level
/// error carrying status, body and URL unmodified; a success status yields
/// either a faithful reading of the body's envelope or a decode-level error
/// carrying the same context — never a fabricated default.
pub fn decode_btc_usd(url: &str, status: u16, body: &str) -> (r: Result<GetBtcUsdRes, ZebedeeError>)
    ensures
        !spec_status_ok(status) ==> (r matches Err(e) && spec_is_status_error(
            e,
            status,
            body@,
            url@,
        )),
        spec_status_ok(status) ==> match r {
            Ok(res) => spec_parse_json(body@) matches Ok(jv) && spec_btc_usd_shape(jv) && spec_btc_usd_matches(
                jv,
                res,
            ),
            Err(e) => spec_is_decode_error(e, status, body@, url@) && !(spec_parse_json(body@)
                matches Ok(jv) && spec_btc_usd_shape(jv)),
        },
{
    if !status_ok(status) {
        return Err(ZebedeeError::Status {
            status,
            body: String::from_str(body),
            url: String::from_str(url),
        });
    }
    match parse_json(body) {
        Err(p) => Err(ZebedeeError::Decode {
            status,
            body: String::from_str(body),
            url: String::from_str(url),
            failure: DecodeFailure::Syntax { position: p },
        }),
        Ok(j) => match btc_usd_res_from_json(&j) {
            Ok(res) => Ok(res),
            Err(e) => Err(ZebedeeError::Decode {
                status,
                body: String::from_str(body),
                url: String::from_str(url),
                failure: DecodeFailure::Shape { field: e },
            }),
        },
    }
}

/// The documented shape of the IP record: `ips` must be an array of strings.
pub open spec fn spec_ip_data_shape(j: JsonV) -> bool {
    &&& j is Obj
    &&& match spec_obj_get(j->Obj_0, "ips"@) {
        Some(a) => a is Arr && spec_str_elems(a->Arr_0) is Ok,
        None => false,
    }
}

/// Whether `d` holds exactly the addresses of the IP record `j`, in order.
pub open spec fn spec_ip_data_matches(j: JsonV, d: IpData) -> bool {
    &&& j is Obj
    &&& match spec_obj_get(j->Obj_0, "ips"@) {
        Some(a) => a is Arr && spec_str_elems(a->Arr_0) == Ok::<_, ()>(d.ips.deep_view()),
        None => false,
    }
}

/// Reads the IP record out of its JSON value.
pub fn ip_data_from_json(j: &Json) -> (r: Result<IpData, String>)
    ensures
        r is Ok <==> spec_ip_data_shape(j@),
        r matches Ok(d) ==> spec_ip_data_matches(j@, d),
{
    let fields = match j {
        Json::Obj(f) => f,
        _ => { return Err(String::from_str("$")); },
    };
    proof {
        assert(j@ == JsonV::Obj(members_view(*fields, 0)));
    }
    match obj_lookup(fields, "ips") {
        Some(a) => match a {
            Json::Arr(elems) => {
                proof {
                    assert(a@ == JsonV::Arr(elems_view(*elems, 0)));
                }
                match str_elems(elems) {
                    Ok(ips) => Ok(IpData { ips }),
                    Err(_) => Err(String::from_str("ips")),
                }
            },
            _ => Err(String::from_str("ips")),
        },
        None => Err(String::from_str("ips")),
    }
}

/// The documented shape of the IP-list envelope.
pub open spec fn spec_prod_ips_shape(j: JsonV) -> bool {
    &&& j is Obj
    &&& spec_opt_bool(j->Obj_0, "success"@) is Ok
    &&& spec_opt_str(j->Obj_0, "message"@) is Ok
    &&& match spec_obj_get(j->Obj_0, "data"@) {
        None => true,
        Some(d) => d is Null || spec_ip_data_shape(d),
    }
}

/// Whether `r` reflects the IP-list envelope `j` exactly.
pub open spec fn spec_prod_ips_matches(j: JsonV, r: GetProdIpsRes) -> bool {
    &&& j is Obj
    &&& spec_opt_bool(j->Obj_0, "success"@) == Ok::<_, ()>(r.success)
    &&& spec_opt_str(j->Obj_0, "message"@) == Ok::<_, ()>(opt_view(r.message))
    &&& match spec_obj_get(j->Obj_0, "data"@) {
        None => r.data is None,
        Some(d) => if d is Null {
            r.data is None
        } else {
            r.data matches Some(dd) && spec_ip_data_matches(d, dd)
        },
    }
}

/// Reads the IP-list envelope out of its JSON value.
pub fn prod_ips_res_from_json(j: &Json) -> (r: Result<GetProdIpsRes, String>)
    ensures
        r is Ok <==> spec_prod_ips_shape(j@),
        r matches Ok(res) ==> spec_prod_ips_matches(j@, res),
{
    let fields = match j {
        Json::Obj(f) => f,
        _ => { return Err(String::from_str("$")); },
    };
    proof {
        assert(j@ == JsonV::Obj(members_view(*fields, 0)));
    }
    let success = match get_opt_bool(fields, "success") {
        Ok(v) => v,
        Err(_) => { return Err(String::from_str("success")); },
    };
    let message = match get_opt_string(fields, "message") {
        Ok(v) => v,
        Err(_) => { return Err(String::from_str("message")); },
    };
    let data = match obj_lookup(fields, "data") {
        None => None,
        Some(d) => match d {
            Json::Null => None,
            _ => match ip_data_from_json(d) {
                Ok(x) => Some(x),
                Err(e) => { return Err(e); },
            },
        },
    };
    Ok(GetProdIpsRes { success, data, message })
}

/// The URL of the production IP list endpoint under the client's domain.
pub fn prod_ips_url(client: &ZebedeeClient) -> (u: String)
    ensures
        u@ == client.domain@ + "/v0/prod-ips"@,
{
    let mut u = client.domain.clone();
    u.append("/v0/prod-ips");
    u
}

/// Decodes one IP-list exchange; errors carry status, body and URL as
/// [`decode_btc_usd`] describes.
pub fn decode_prod_ips(url: &str, status: u16, body: &str) -> (r: Result<
    GetProdIpsRes,
    ZebedeeError,
>)
    ensures
        !spec_status_ok(status) ==> (r matches Err(e) && spec_is_status_error(
            e,
            status,
            body@,
            url@,
        )),
        spec_status_ok(status) ==> match r {
            Ok(res) => spec_parse_json(body@) matches Ok(jv) && spec_prod_ips_shape(jv) && spec_prod_ips_matches(
                jv,
                res,
            ),
            Err(e) => spec_is_decode_error(e, status, body@, url@) && !(spec_parse_json(body@)
                matches Ok(jv) && spec_prod_ips_shape(jv)),
        },
{
    if !status_ok(status) {
        return Err(ZebedeeError::Status {
            status,
            body: String::from_str(body),
            url: String::from_str(url),
        });
    }
    match parse_json(body) {
        Err(p) => Err(ZebedeeError::Decode {
            status,
            body: String::from_str(body),
            url: String::from_str(url),
            failure: DecodeFailure::Syntax { position: p },
        }),
        Ok(j) => match prod_ips_res_from_json(&j) {
            Ok(res) => Ok(res),
            Err(e) => Err(ZebedeeError::Decode {
                status,
                body: String::from_str(body),
                url: String::from_str(url),
                failure: DecodeFailure::Shape { field: e },
            }),
        },
    }
}

/// The documented shape of the region record.
pub open spec fn spec_region_data_shape(j: JsonV) -> bool {
    &&& j is Obj
    &&& spec_req_str(j->Obj_0, "ipAddress"@) is Ok
    &&& spec_req_bool(j->Obj_0, "isSupported"@) is Ok
    &&& spec_req_str(j->Obj_0, "ipCountry"@) is Ok
    &&& spec_req_str(j->Obj_0, "ipRegion"@) is Ok
}

/// Whether `d` carries exactly the fields of the region record `j`.
pub open spec fn spec_region_data_matches(j: JsonV, d: RegionIpData) -> bool {
    &&& j is Obj
    &&& spec_req_str(j->Obj_0, "ipAddress"@) == Ok::<_, ()>(d.ip_address@)
    &&& spec_req_bool(j->Obj_0, "isSupported"@) == Ok::<_, ()>(d.is_supported)
    &&& spec_req_str(j->Obj_0, "ipCountry"@) == Ok::<_, ()>(d.ip_country@)
    &&& spec_req_str(j->Obj_0, "ipRegion"@) == Ok::<_, ()>(d.ip_region@)
}

/// Reads the region record out of its JSON value.
pub fn region_data_from_json(j: &Json) -> (r: Result<RegionIpData, String>)
    ensures
        r is Ok <==> spec_region_data_shape(j@),
        r matches Ok(d) ==> spec_region_data_matches(j@, d),
{
    let fields = match j {
        Json::Obj(f) => f,
        _ => { return Err(String::from_str("$")); },
    };
    proof {
        assert(j@ == JsonV::Obj(members_view(*fields, 0)));
    }
    let ip_address = match get_req_string(fields, "ipAddress") {
        Ok(v) => v,
        Err(_) => { return Err(String::from_str("ipAddress")); },
    };
    let is_supported = match get_req_bool(fields, "isSupported") {
        Ok(v) => v,
        Err(_) => { return Err(String::from_str("isSupported")); },
    };
    let ip_country = match get_req_string(fields, "ipCountry") {
        Ok(v) => v,
        Err(_) => { return Err(String::from_str("ipCountry")); },
    };
    let ip_region = match get_req_string(fields, "ipRegion") {
        Ok(v) => v,
        Err(_) => { return Err(String::from_str("ipRegion")); },
    };
    Ok(RegionIpData { ip_address, is_supported, ip_country, ip_region })
}

/// The documented shape of the region-support envelope.
pub open spec fn spec_region_shape(j: JsonV) -> bool {
    &&& j is Obj
    &&& spec_opt_bool(j->Obj_0, "success"@) is Ok
    &&& spec_opt_str(j->Obj_0, "message"@) is Ok
    &&& match spec_obj_get(j->Obj_0, "data"@) {
        None => true,
        Some(d) => d is Null || spec_region_data_shape(d),
    }
}

/// Whether `r` reflects the region-support envelope `j` exactly.
pub open spec fn spec_region_matches(j: JsonV, r: GetIsSupportedRegionByIpRes) -> bool {
    &&& j is Obj
    &&& spec_opt_bool(j->Obj_0, "success"@) == Ok::<_, ()>(r.success)
    &&& spec_opt_str(j->Obj_0, "message"@) == Ok::<_, ()>(opt_view(r.message))
    &&& match spec_obj_get(j->Obj_0, "data"@) {
        None => r.data is None,
        Some(d) => if d is Null {
            r.data is None
        } else {
            r.data matches Some(dd) && spec_region_data_matches(d, dd)
        },
    }
}

/// Reads the region-support envelope out of its JSON value.
pub fn region_res_from_json(j: &Json) -> (r: Result<GetIsSupportedRegionByIpRes, String>)
    ensures
        r is Ok <==> spec_region_shape(j@),
        r matches Ok(res) ==> spec_region_matches(j@, res),
{
    let fields = match j {
        Json::Obj(f) => f,
        _ => { return Err(String::from_str("$")); },
    };
    proof {
        assert(j@ == JsonV::Obj(members_view(*fields, 0)));
    }
    let success = match get_opt_bool(fields, "success") {
        Ok(v) => v,
        Err(_) => { return Err(String::from_str("success")); },
    };
    let message = match get_opt_string(fields, "message") {
        Ok(v) => v,
        Err(_) => { return Err(String::from_str("message")); },
    };
    let data = match obj_lookup(fields, "data") {
        None => None,
        Some(d) => match d {
            Json::Null => None,
            _ => match region_data_from_json(d) {
                Ok(x) => Some(x),
                Err(e) => { return Err(e); },
            },
        },
    };
    Ok(GetIsSupportedRegionByIpRes { success, data, message })
}

/// The URL of the region-support endpoint for `ip` under the client's
/// domain.
pub fn is_supported_region_url(client: &ZebedeeClient, ip: &str) -> (u: String)
    ensures
        u@ == client.domain@ + "/v0/is-supported-region/"@ + ip@,
{
    let mut u = client.domain.clone();
    u.append("/v0/is-supported-region/");
    u.append(ip);
    u
}

/// Decodes one region-support exchange; errors carry status, body and URL
/// as [`decode_btc_usd`] describes.
pub fn decode_is_supported_region(url: &str, status: u16, body: &str) -> (r: Result<
    GetIsSupportedRegionByIpRes,
    ZebedeeError,
>)
    ensures
        !spec_status_ok(status) ==> (r matches Err(e) && spec_is_status_error(
            e,
            status,
            body@,
            url@,
        )),
        spec_status_ok(status) ==> match r {
            Ok(res) => spec_parse_json(body@) matches Ok(jv) && spec_region_shape(jv) && spec_region_matches(
                jv,
                res,
            ),
            Err(e) => spec_is_decode_error(e, status, body@, url@) && !(spec_parse_json(body@)
                matches Ok(jv) && spec_region_shape(jv)),
        },
{
    if !status_ok(status) {
        return Err(ZebedeeError::Status {
            status,
            body: String::from_str(body),
            url: String::from_str(url),
        });
    }
    match parse_json(body) {
        Err(p) => Err(ZebedeeError::Decode {
            status,
            body: String::from_str(body),
            url: String::from_str(url),
            failure: DecodeFailure::Syntax { position: p },
        }),
        Ok(j) => match region_res_from_json(&j) {
            Ok(res) => Ok(res),
            Err(e) => Err(ZebedeeError::Decode {
                status,
                body: String::from_str(body),
                url: String::from_str(url),
                failure: DecodeFailure::Shape { field: e },
            }),
        },
    }
}

} // verus!
