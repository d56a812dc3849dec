use zebedee_rust::json::parse_json;
use zebedee_rust::withdrawal_request::{
    encode_withdrawal_request, withdrawal_reqest_from_json, withdrawal_reqest_to_json,
    WithdrawalReqest,
};

#[test]
fn tree_level_round_trip_preserves_every_field() {
    let w = WithdrawalReqest {
        expires_in: 77,
        amount: String::from("21"),
        description: String::from("desc"),
        internal_id: String::from("i"),
        callback_url: String::from("c"),
    };
    let tree = withdrawal_reqest_to_json(&w);
    let back = withdrawal_reqest_from_json(&tree).unwrap();
    assert_eq!(back.expires_in, 77);
    assert_eq!(back.amount, "21");
    assert_eq!(back.description, "desc");
    assert_eq!(back.internal_id, "i");
    assert_eq!(back.callback_url, "c");
}

#[test]
fn encode_default_with_amount() {
    let w = WithdrawalReqest { amount: String::from("10000"), ..Default::default() };
    let body = encode_withdrawal_request(&w);
    assert_eq!(
        body,
        "{\"expiresIn\":300,\"amount\":\"10000\",\"description\":\"using zebedee rust sdk\",\"internalId\":\"\",\"callbackUrl\":\"\"}"
    );
}

#[test]
fn default_fields() {
    let w = WithdrawalReqest::default();
    assert_eq!(w.expires_in, 300);
    assert_eq!(w.amount, "0");
    assert_eq!(w.description, "using zebedee rust sdk");
    assert_eq!(w.internal_id, "");
    assert_eq!(w.callback_url, "");
}

#[test]
fn encode_escapes_special_characters() {
    let w = WithdrawalReqest {
        expires_in: 0,
        amount: String::from("1"),
        description: String::from("a \"quoted\" back\\slash\nand tab\t"),
        internal_id: String::from("control:\u{1}"),
        callback_url: String::from("https://example.com/cb?a=1&b=2"),
    };
    let body = encode_withdrawal_request(&w);
    assert_eq!(
        body,
        "{\"expiresIn\":0,\"amount\":\"1\",\"description\":\"a \\\"quoted\\\" back\\\\slash\\nand tab\\t\",\"internalId\":\"control:\\u0001\",\"callbackUrl\":\"https://example.com/cb?a=1&b=2\"}"
    );
}

#[test]
fn round_trip_preserves_every_field() {
    let w = WithdrawalReqest {
        expires_in: 4294967295,
        amount: String::from("10000"),
        description: String::from("weird \\ \"text\"\nwith breaks"),
        internal_id: String::from("id-42"),
        callback_url: String::from("https://cb.example/x"),
    };
    let body = encode_withdrawal_request(&w);
    let tree = parse_json(&body).unwrap();
    let back = withdrawal_reqest_from_json(&tree).unwrap();
    assert_eq!(back.expires_in, w.expires_in);
    assert_eq!(back.amount, w.amount);
    assert_eq!(back.description, w.description);
    assert_eq!(back.internal_id, w.internal_id);
    assert_eq!(back.callback_url, w.callback_url);
}

#[test]
fn round_trip_of_the_defaults() {
    let w = WithdrawalReqest::default();
    let body = encode_withdrawal_request(&w);
    let back = withdrawal_reqest_from_json(&parse_json(&body).unwrap()).unwrap();
    assert_eq!(back.expires_in, 300);
    assert_eq!(back.amount, "0");
    assert_eq!(back.description, "using zebedee rust sdk");
    assert_eq!(back.internal_id, "");
    assert_eq!(back.callback_url, "");
}

#[test]
fn encoded_body_agrees_with_an_independent_json_reader() {
    let w = WithdrawalReqest {
        expires_in: 300,
        amount: String::from("10000"),
        description: String::from("line\nbreak \"q\""),
        internal_id: String::from("abc"),
        callback_url: String::from(""),
    };
    let body = encode_withdrawal_request(&w);
    let v: serde_json::Value = serde_json::from_str(&body).unwrap();
    assert_eq!(v.get("expiresIn").and_then(|x| x.as_u64()), Some(300));
    assert_eq!(v.get("amount").and_then(|x| x.as_str()), Some("10000"));
    assert_eq!(v.get("description").and_then(|x| x.as_str()), Some("line\nbreak \"q\""));
    assert_eq!(v.get("internalId").and_then(|x| x.as_str()), Some("abc"));
    assert_eq!(v.get("callbackUrl").and_then(|x| x.as_str()), Some(""));
    assert_eq!(v.as_object().map(|o| o.len()), Some(5));
}
