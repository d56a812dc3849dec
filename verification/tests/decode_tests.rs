use zebedee_rust::error::ZebedeeError;
use zebedee_rust::utilities::{decode_btc_usd, decode_is_supported_region, decode_prod_ips};
use zebedee_rust::withdrawal_request::{
    decode_create_withdrawal_request, decode_get_withdrawal_request,
    decode_get_withdrawal_requests,
};

#[test]
fn btc_usd_success_scenario() {
    let body = "{\"success\":true,\"data\":{\"btcUsdPrice\":\"27000.12\",\"btcUsdTimestamp\":\"2023-01-01T00:00:00Z\"},\"message\":null}";
    let r = decode_btc_usd("https://api.zebedee.io/v0/btcusd", 200, body).unwrap();
    assert_eq!(r.success, Some(true));
    let data = r.data.unwrap();
    assert_eq!(data.btc_usd_price, "27000.12");
    assert_eq!(data.btc_usd_timestamp, "2023-01-01T00:00:00Z");
    assert!(r.message.is_none());
}

#[test]
fn withdrawal_not_found_scenario() {
    let url = "https://api.zebedee.io/v0/withdrawal-requests/abc";
    let body = "{\"message\":\"not found\"}";
    let e = decode_get_withdrawal_request(url, 404, body).unwrap_err();
    match e {
        ZebedeeError::Status { status, body: b, url: u } => {
            assert_eq!(status, 404);
            assert!(b.contains("not found"));
            assert_eq!(u, url);
        }
        _ => panic!("expected a status-level error"),
    }
    let e2 = decode_get_withdrawal_request(url, 404, body).unwrap_err();
    assert!(e2.is_status());
    assert_eq!(e2.status_code(), 404);
    let text = e2.describe();
    assert!(text.contains("404"));
    assert!(text.contains("not found"));
}

#[test]
fn create_with_malformed_body_scenario() {
    // a success status whose body lacks the required invoice object
    let url = "https://api.zebedee.io/v0/withdrawal-requests";
    let body = "{\"success\":true,\"data\":{\"id\":\"x\",\"unit\":\"satoshis\",\"amount\":\"10000\",\"createdAt\":\"2023-01-01T00:00:00Z\",\"expiresAt\":\"2023-01-01T00:05:00Z\",\"internalId\":\"\",\"description\":\"d\",\"callbackUrl\":\"\",\"status\":\"pending\"}}";
    let e = decode_create_withdrawal_request(url, 200, body).unwrap_err();
    assert!(e.is_decode());
    assert_eq!(e.status_code(), 200);
}

#[test]
fn status_error_carries_body_and_url_unmodified() {
    let url = "https://api.zebedee.io/v0/btcusd";
    let e = decode_btc_usd(url, 500, "oops, not even json {").unwrap_err();
    match e {
        ZebedeeError::Status { status, body, url: u } => {
            assert_eq!(status, 500);
            assert_eq!(body, "oops, not even json {");
            assert_eq!(u, url);
        }
        _ => panic!("expected a status-level error"),
    }
}

#[test]
fn non_json_success_body_is_a_decode_error() {
    let e = decode_prod_ips("u", 200, "not json at all").unwrap_err();
    match e {
        ZebedeeError::Decode { status, body, .. } => {
            assert_eq!(status, 200);
            assert_eq!(body, "not json at all");
        }
        _ => panic!("expected a decode-level error"),
    }
}

#[test]
fn wrong_field_type_is_a_decode_error() {
    // the success flag must be a boolean or null, never a string
    let e = decode_btc_usd("u", 200, "{\"success\":\"yes\"}").unwrap_err();
    assert!(e.is_decode());
    // a number where the price record should be
    let e2 = decode_btc_usd("u", 200, "{\"data\":7}").unwrap_err();
    assert!(e2.is_decode());
}

#[test]
fn absent_keys_stay_unset() {
    let r = decode_btc_usd("u", 200, "{}").unwrap();
    assert!(r.success.is_none());
    assert!(r.data.is_none());
    assert!(r.message.is_none());

    let r2 = decode_btc_usd("u", 200, "{\"success\":false,\"message\":\"no\"}").unwrap();
    assert_eq!(r2.success, Some(false));
    assert!(r2.data.is_none());
    assert_eq!(r2.message.as_deref(), Some("no"));

    // a null data key is unset as well
    let r3 = decode_btc_usd("u", 200, "{\"data\":null}").unwrap();
    assert!(r3.data.is_none());
}

#[test]
fn prod_ips_success() {
    let body = "{\"success\":true,\"data\":{\"ips\":[\"3.225.112.64\",\"3.225.112.65\"]},\"message\":null}";
    let r = decode_prod_ips("https://api.zebedee.io/v0/prod-ips", 200, body).unwrap();
    assert_eq!(r.success, Some(true));
    let data = r.data.unwrap();
    assert_eq!(data.ips, vec!["3.225.112.64".to_string(), "3.225.112.65".to_string()]);
}

#[test]
fn prod_ips_rejects_non_string_entries() {
    let e = decode_prod_ips("u", 200, "{\"data\":{\"ips\":[\"a\",7]}}").unwrap_err();
    assert!(e.is_decode());
}

#[test]
fn region_success() {
    let body = "{\"success\":true,\"data\":{\"ipAddress\":\"3.225.112.64\",\"isSupported\":true,\"ipCountry\":\"US\",\"ipRegion\":\"Virginia\"},\"message\":null}";
    let r = decode_is_supported_region("u", 200, body).unwrap();
    assert_eq!(r.success, Some(true));
    let d = r.data.unwrap();
    assert_eq!(d.ip_address, "3.225.112.64");
    assert!(d.is_supported);
    assert_eq!(d.ip_country, "US");
    assert_eq!(d.ip_region, "Virginia");
}

#[test]
fn region_missing_field_is_a_decode_error() {
    let body = "{\"data\":{\"ipAddress\":\"1.1.1.1\",\"isSupported\":true,\"ipCountry\":\"US\"}}";
    let e = decode_is_supported_region("u", 200, body).unwrap_err();
    assert!(e.is_decode());
}

#[test]
fn list_all_withdrawal_requests() {
    let record = "{\"id\":\"w1\",\"unit\":\"satoshis\",\"amount\":\"10000\",\"createdAt\":\"2023-01-01T00:00:00Z\",\"expiresAt\":\"2023-01-01T00:05:00Z\",\"internalId\":\"i1\",\"description\":\"d1\",\"callbackUrl\":\"https://cb\",\"status\":\"pending\",\"invoice\":{\"request\":\"lnbc1\",\"fastRequest\":\"lnbc2\",\"uri\":\"lightning:lnbc1\",\"fastUri\":\"lightning:lnbc2\"}}";
    let body = format!("{{\"success\":true,\"data\":[{record},{record}],\"message\":null}}");
    let r = decode_get_withdrawal_requests("u", 200, &body).unwrap();
    assert_eq!(r.success, Some(true));
    let rs = r.data.unwrap();
    assert_eq!(rs.len(), 2);
    assert_eq!(rs[0].id, "w1");
    assert_eq!(rs[0].amount, "10000");
    assert_eq!(rs[1].invoice.request, "lnbc1");
    assert_eq!(rs[1].invoice.fast_uri, "lightning:lnbc2");
}

#[test]
fn fetch_one_withdrawal_request() {
    let body = "{\"success\":true,\"data\":{\"id\":\"w9\",\"unit\":\"satoshis\",\"amount\":\"500\",\"createdAt\":\"2023-02-01T00:00:00Z\",\"expiresAt\":\"2023-02-01T00:05:00Z\",\"internalId\":\"\",\"description\":\"pay\",\"callbackUrl\":\"\",\"status\":\"completed\",\"invoice\":{\"request\":\"r\",\"fastRequest\":\"fr\",\"uri\":\"u\",\"fastUri\":\"fu\"}},\"message\":null}";
    let r = decode_get_withdrawal_request("u", 200, body).unwrap();
    assert_eq!(r.success, Some(true));
    let d = r.data.unwrap();
    assert_eq!(d.id, "w9");
    assert_eq!(d.status, "completed");
    assert_eq!(d.created_at, "2023-02-01T00:00:00Z");
    assert_eq!(d.invoice.fast_request, "fr");
}

#[test]
fn whole_2xx_range_counts_as_success_when_creating() {
    // the creation endpoint treats any 2xx as success, per the contract
    let e = decode_create_withdrawal_request("u", 201, "{\"success\":true}");
    assert!(e.is_ok());
}

#[test]
fn success_false_beside_populated_data_passes_through() {
    // the wire format leaves the precedence of `success` over `data` open;
    // the client reports both and lets the caller decide
    let body = "{\"success\":false,\"data\":{\"btcUsdPrice\":\"1\",\"btcUsdTimestamp\":\"t\"}}";
    let r = decode_btc_usd("u", 200, body).unwrap();
    assert_eq!(r.success, Some(false));
    assert!(r.data.is_some());
}

#[test]
fn malformed_timestamps_are_a_decode_error() {
    let body = "{\"success\":true,\"data\":{\"id\":\"w1\",\"unit\":\"satoshis\",\"amount\":\"1\",\"createdAt\":\"yesterday\",\"expiresAt\":\"2023-01-01T00:05:00Z\",\"internalId\":\"\",\"description\":\"d\",\"callbackUrl\":\"\",\"status\":\"pending\",\"invoice\":{\"request\":\"r\",\"fastRequest\":\"f\",\"uri\":\"u\",\"fastUri\":\"fu\"}}}";
    let e = decode_get_withdrawal_request("u", 200, body).unwrap_err();
    assert!(e.is_decode());
    match e {
        ZebedeeError::Decode { failure, .. } => match failure {
            zebedee_rust::error::DecodeFailure::Shape { field } => assert_eq!(field, "createdAt"),
            other => panic!("expected a shape failure, got {other:?}"),
        },
        _ => panic!("expected a decode-level error"),
    }
}

#[test]
fn fractional_and_offset_timestamps_are_accepted() {
    let body = "{\"data\":{\"id\":\"w1\",\"unit\":\"satoshis\",\"amount\":\"1\",\"createdAt\":\"2023-01-01T00:00:00.123+05:30\",\"expiresAt\":\"2023-01-01 00:05:00.5z\",\"internalId\":\"\",\"description\":\"d\",\"callbackUrl\":\"\",\"status\":\"ok\",\"invoice\":{\"request\":\"r\",\"fastRequest\":\"f\",\"uri\":\"u\",\"fastUri\":\"fu\"}}}";
    let r = decode_get_withdrawal_request("u", 200, body).unwrap();
    assert_eq!(r.data.unwrap().created_at, "2023-01-01T00:00:00.123+05:30");
}

#[test]
fn every_status_outside_2xx_is_a_status_error() {
    for status in [100u16, 199, 300, 301, 400, 404, 500, 503] {
        let e = decode_btc_usd("u", status, "{}").unwrap_err();
        assert!(e.is_status(), "status {status} must be a status-level error");
        assert_eq!(e.status_code(), status);
    }
    for status in [200u16, 201, 204, 299] {
        assert!(decode_btc_usd("u", status, "{}").is_ok(), "status {status} must succeed");
    }
}
