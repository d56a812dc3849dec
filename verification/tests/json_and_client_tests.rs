use zebedee_rust::json::{parse_json, Json};
use zebedee_rust::utilities::{btc_usd_url, is_supported_region_url, prod_ips_url};
use zebedee_rust::withdrawal_request::{withdrawal_request_url, withdrawal_requests_url};
use zebedee_rust::ZebedeeClient;

fn client() -> ZebedeeClient {
    ZebedeeClient::new()
        .domain(String::from("https://api.zebedee.io"))
        .apikey(String::from("k"))
        .build()
}

#[test]
fn builder_sets_domain_and_key() {
    let c = client();
    assert_eq!(c.domain, "https://api.zebedee.io");
    assert_eq!(c.apikey, "k");
}

#[test]
fn urls_compose_domain_and_path() {
    let c = client();
    assert_eq!(btc_usd_url(&c), "https://api.zebedee.io/v0/btcusd");
    assert_eq!(prod_ips_url(&c), "https://api.zebedee.io/v0/prod-ips");
    assert_eq!(
        is_supported_region_url(&c, "3.225.112.64"),
        "https://api.zebedee.io/v0/is-supported-region/3.225.112.64"
    );
    assert_eq!(withdrawal_requests_url(&c), "https://api.zebedee.io/v0/withdrawal-requests");
    assert_eq!(
        withdrawal_request_url(&c, "abc"),
        "https://api.zebedee.io/v0/withdrawal-requests/abc"
    );
}

#[test]
fn parses_scalars_and_whitespace() {
    assert!(matches!(parse_json(" null "), Ok(Json::Null)));
    assert!(matches!(parse_json("true"), Ok(Json::Bool(true))));
    assert!(matches!(parse_json("false"), Ok(Json::Bool(false))));
    match parse_json("-12.5e+3") {
        Ok(Json::Num(v)) => assert_eq!(v.iter().collect::<String>(), "-12.5e+3"),
        other => panic!("expected a number, got {other:?}"),
    }
}

#[test]
fn parses_string_escapes() {
    match parse_json("\"a\\\"b\\\\c\\n\\t\\r\\b\\f\\/\\u0041\"") {
        Ok(Json::Str(v)) => {
            assert_eq!(v.iter().collect::<String>(), "a\"b\\c\n\t\r\u{8}\u{c}/A");
        }
        other => panic!("expected a string, got {other:?}"),
    }
    // an astral character written as a surrogate pair
    match parse_json("\"\\uD83D\\uDE00\"") {
        Ok(Json::Str(v)) => assert_eq!(v.iter().collect::<String>(), "\u{1F600}"),
        other => panic!("expected a string, got {other:?}"),
    }
}

#[test]
fn rejects_malformed_documents() {
    assert!(parse_json("").is_err());
    assert!(parse_json("{").is_err());
    assert!(parse_json("{\"a\":}").is_err());
    assert!(parse_json("[1,]").is_err());
    assert!(parse_json("01").is_err());
    assert!(parse_json("\"unterminated").is_err());
    assert!(parse_json("\"bad \\x escape\"").is_err());
    // a lone surrogate has no character
    assert!(parse_json("\"\\uD83D\"").is_err());
    // an unescaped control character inside a string
    assert!(parse_json("\"a\u{1}b\"").is_err());
    // trailing garbage after a complete value
    assert!(parse_json("{} tail").is_err());
}

#[test]
fn reports_the_failure_position() {
    match parse_json("{\"a\": nope}") {
        Err(p) => assert_eq!(p, 6),
        Ok(_) => panic!("must not parse"),
    }
}

#[test]
fn nesting_beyond_the_depth_bound_is_rejected() {
    let deep_ok = format!("{}true{}", "[".repeat(128), "]".repeat(128));
    assert!(parse_json(&deep_ok).is_ok());
    let deep_bad = format!("{}true{}", "[".repeat(129), "]".repeat(129));
    assert!(parse_json(&deep_bad).is_err());
}

#[test]
fn parse_then_render_canonicalizes() {
    let t = parse_json(" { \"a\" : [ -1.5 , true , null , \"x\\ty\" ] } ").unwrap();
    assert_eq!(
        zebedee_rust::json::render_json(&t),
        "{\"a\":[-1.5,true,null,\"x\\ty\"]}"
    );
}

#[test]
fn rendering_the_input_tree_equals_the_encoded_body() {
    let w = zebedee_rust::withdrawal_request::WithdrawalReqest {
        amount: String::from("10000"),
        ..Default::default()
    };
    let tree = zebedee_rust::withdrawal_request::withdrawal_reqest_to_json(&w);
    assert_eq!(
        zebedee_rust::json::render_json(&tree),
        zebedee_rust::withdrawal_request::encode_withdrawal_request(&w)
    );
}

#[test]
fn later_duplicate_keys_are_ignored() {
    let r = zebedee_rust::utilities::decode_btc_usd("u", 200, "{\"success\":true,\"success\":false}")
        .unwrap();
    assert_eq!(r.success, Some(true));
}
