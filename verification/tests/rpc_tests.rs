use lithe::rpc::{encode_request, settle_call, CallOutcome, RpcRequest};
use lithe::wire::WireValue;

#[test]
fn http_500_settles_to_the_default_value() {
    // a remote call answered with HTTP 500: the caller sees the declared
    // result type's default, never an error
    let settled = settle_call(
        CallOutcome::Response { status: 500, result: Some(WireValue::Int(9)) },
        WireValue::Int(0),
    );
    assert_eq!(settled, WireValue::Int(0));
}

#[test]
fn transport_failure_settles_to_the_default_value() {
    let settled = settle_call(CallOutcome::TransportFailed, WireValue::Text(String::new()));
    assert_eq!(settled, WireValue::Text(String::new()));
}

#[test]
fn missing_result_settles_to_the_default_value() {
    let settled = settle_call(
        CallOutcome::Response { status: 200, result: None },
        WireValue::Bool(false),
    );
    assert_eq!(settled, WireValue::Bool(false));
}

#[test]
fn success_with_result_returns_the_result() {
    let settled = settle_call(
        CallOutcome::Response { status: 200, result: Some(WireValue::Int(41)) },
        WireValue::Int(0),
    );
    assert_eq!(settled, WireValue::Int(41));
    let settled = settle_call(
        CallOutcome::Response { status: 299, result: Some(WireValue::Null) },
        WireValue::Int(0),
    );
    assert_eq!(settled, WireValue::Null);
}

#[test]
fn request_envelope_has_the_documented_shape() {
    let req = RpcRequest {
        function: "f_abc".to_string(),
        args: WireValue::List(vec![WireValue::Int(1), WireValue::Bool(true)]),
    };
    let body = encode_request(&req);
    assert_eq!(body, "{\"function\":\"f_abc\",\"args\":[1,true]}");
    // the black-box codec agrees on the shape
    let v: serde_json::Value = serde_json::from_str(&body).unwrap();
    assert_eq!(v["function"].as_str(), Some("f_abc"));
    assert_eq!(v["args"][0].as_i64(), Some(1));
    assert_eq!(v["args"][1].as_bool(), Some(true));
}

#[test]
fn request_envelope_escapes_the_target() {
    let req = RpcRequest {
        function: "we\"ird\\name".to_string(),
        args: WireValue::Null,
    };
    let body = encode_request(&req);
    let v: serde_json::Value = serde_json::from_str(&body).unwrap();
    assert_eq!(v["function"].as_str(), Some("we\"ird\\name"));
    assert!(v["args"].is_null());
}
