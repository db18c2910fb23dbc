use lithe::split::{split_function, AnnotatedFn, BundleShape, Param};
use lithe::wire::{json_encode, pack_args, unpack_args, WireValue};
use lithe::rpc::{encode_request, settle_call, stub_request, CallOutcome};

fn annotated(module: &str, name: &str, params: &[(&str, &str)], ret: Option<&str>) -> AnnotatedFn {
    AnnotatedFn {
        owner_module: module.to_string(),
        name: name.to_string(),
        params: params
            .iter()
            .map(|(n, t)| Param { name: n.to_string(), ty: t.to_string() })
            .collect(),
        ret_ty: ret.map(|t| t.to_string()),
    }
}

#[test]
fn pack_unpack_inverse_arity_zero() {
    let packed = pack_args(vec![]);
    assert_eq!(packed, WireValue::Null);
    assert_eq!(unpack_args(packed, 0), Some(vec![]));
}

#[test]
fn pack_unpack_inverse_arity_one() {
    let packed = pack_args(vec![WireValue::Int(7)]);
    // the single-parameter special case: no wrapping tuple
    assert_eq!(packed, WireValue::Int(7));
    assert_eq!(unpack_args(packed, 1), Some(vec![WireValue::Int(7)]));
}

#[test]
fn pack_unpack_inverse_arity_many() {
    let vals = vec![
        WireValue::Int(1),
        WireValue::Text("x".to_string()),
        WireValue::Bool(true),
    ];
    let packed = pack_args(vec![
        WireValue::Int(1),
        WireValue::Text("x".to_string()),
        WireValue::Bool(true),
    ]);
    assert_eq!(unpack_args(packed, 3), Some(vals));
}

#[test]
fn unpack_rejects_wrong_shape() {
    assert_eq!(unpack_args(WireValue::Int(1), 0), None);
    assert_eq!(unpack_args(WireValue::Int(1), 2), None);
    let two = pack_args(vec![WireValue::Int(1), WireValue::Int(2)]);
    assert_eq!(unpack_args(two, 3), None);
}

#[test]
fn splitter_pairs_wrapper_and_stub() {
    let f = annotated("module", "add", &[("a", "i32"), ("b", "i32")], Some("i32"));
    let (wrapper, stub) = split_function(&f);
    assert_eq!(wrapper.wrapper_name, "__lithe_rpc_wrapper_add");
    assert_eq!(wrapper.param_names, vec!["a".to_string(), "b".to_string()]);
    assert_eq!(stub.name, "add");
    assert_eq!(stub.path_key, "module::add");
    assert_eq!(stub.identifier, "f_c0b110de588fff28");
    // same arity, same positional order on both sides
    assert_eq!(wrapper.param_names, stub.param_names);
    match (&wrapper.shape, &stub.shape) {
        (BundleShape::Tuple(w), BundleShape::Tuple(s)) => {
            assert_eq!(w, s);
            assert_eq!(w, &vec!["i32".to_string(), "i32".to_string()]);
        }
        _ => panic!("two-parameter bundles must be tuples on both sides"),
    }
}

#[test]
fn splitter_single_parameter_shape_is_bare() {
    let f = annotated("m", "f", &[("x", "String")], Some("String"));
    let (wrapper, stub) = split_function(&f);
    assert!(matches!(wrapper.shape, BundleShape::Single(ref t) if t == "String"));
    assert!(matches!(stub.shape, BundleShape::Single(ref t) if t == "String"));
}

#[test]
fn end_to_end_add_scenario() {
    // annotated function add(a, b) in module `module`
    let f = annotated("module", "add", &[("a", "i32"), ("b", "i32")], Some("i32"));
    let (wrapper, stub) = split_function(&f);
    // the server wrapper expects a 2-tuple
    assert!(matches!(wrapper.shape, BundleShape::Tuple(ref t) if t.len() == 2));
    // the client stub packs (2, 3) and posts the envelope
    let req = stub_request(&stub, vec![WireValue::Int(2), WireValue::Int(3)]);
    let body = encode_request(&req);
    assert_eq!(body, "{\"function\":\"f_c0b110de588fff28\",\"args\":[2,3]}");
    // the server side unpacks the same 2-tuple
    let decoded: serde_json::Value = serde_json::from_str(&body).unwrap();
    assert_eq!(decoded["function"], serde_json::Value::String("f_c0b110de588fff28".to_string()));
    let args = decoded["args"].as_array().unwrap();
    let bundle = pack_args(vec![
        WireValue::Int(args[0].as_i64().unwrap()),
        WireValue::Int(args[1].as_i64().unwrap()),
    ]);
    assert_eq!(
        unpack_args(bundle, 2),
        Some(vec![WireValue::Int(2), WireValue::Int(3)])
    );
    // given the response {"result": 5}, the stub returns 5
    let resp: serde_json::Value = serde_json::from_str("{\"result\": 5}").unwrap();
    let result = resp.get("result").and_then(|v| v.as_i64()).map(WireValue::Int);
    let settled = settle_call(
        CallOutcome::Response { status: 200, result },
        WireValue::Int(0),
    );
    assert_eq!(settled, WireValue::Int(5));
}

#[test]
fn json_encoding_exact_texts() {
    assert_eq!(json_encode(&WireValue::Null), "null");
    assert_eq!(json_encode(&WireValue::Bool(true)), "true");
    assert_eq!(json_encode(&WireValue::Bool(false)), "false");
    assert_eq!(json_encode(&WireValue::Int(0)), "0");
    assert_eq!(json_encode(&WireValue::Int(-42)), "-42");
    assert_eq!(json_encode(&WireValue::Int(i64::MIN)), "-9223372036854775808");
    assert_eq!(
        json_encode(&WireValue::Text("a\"b\\c\nd".to_string())),
        "\"a\\\"b\\\\c\\nd\""
    );
    assert_eq!(
        json_encode(&WireValue::List(vec![
            WireValue::Int(1),
            WireValue::Text("x".to_string()),
            WireValue::List(vec![]),
        ])),
        "[1,\"x\",[]]"
    );
    // what we frame is exactly what the black-box codec parses back
    let v: serde_json::Value =
        serde_json::from_str(&json_encode(&WireValue::Text("tab\there".to_string()))).unwrap();
    assert_eq!(v, serde_json::Value::String("tab\there".to_string()));
}
