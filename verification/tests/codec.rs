//! The codec: JSON text, envelopes, and their round trips.

use mcp_core::json::{parse_json_text, to_json_text, JsonValue};
use mcp_core::rpc::{
    decode_message, encode_message, JSONRPCError, JSONRPCErrorObject, JSONRPCMessage,
    JSONRPCNotification, JSONRPCRequest, JSONRPCResponse, RequestId,
};

fn obj(members: Vec<(&str, JsonValue)>) -> JsonValue {
    JsonValue::Obj(members.into_iter().map(|(k, v)| (k.to_string(), v)).collect())
}

fn s(text: &str) -> JsonValue {
    JsonValue::Str(text.to_string())
}

#[test]
fn json_text_round_trip() {
    let v = obj(vec![
        ("name", s("echo")),
        ("count", JsonValue::Int(42)),
        ("neg", JsonValue::Int(-7)),
        ("flag", JsonValue::Bool(true)),
        ("nothing", JsonValue::Null),
        ("items", JsonValue::Arr(vec![JsonValue::Int(1), s("two"), JsonValue::Arr(vec![])])),
        ("empty", obj(vec![])),
    ]);
    let text = to_json_text(&v);
    assert_eq!(
        text,
        "{\"name\":\"echo\",\"count\":42,\"neg\":-7,\"flag\":true,\"nothing\":null,\
         \"items\":[1,\"two\",[]],\"empty\":{}}"
    );
    let back = parse_json_text(&text).expect("canonical text must parse");
    assert_eq!(to_json_text(&back), text);
}

#[test]
fn json_int_edges_round_trip() {
    for n in [0i64, 1, -1, i64::MAX, i64::MIN] {
        let text = to_json_text(&JsonValue::Int(n));
        let back = parse_json_text(&text).expect("integer text must parse");
        match back {
            JsonValue::Int(m) => assert_eq!(m, n),
            _ => panic!("an integer must parse back as an integer"),
        }
    }
    assert_eq!(to_json_text(&JsonValue::Int(i64::MIN)), "-9223372036854775808");
}

#[test]
fn json_rejects_garbage() {
    assert!(parse_json_text("").is_none());
    assert!(parse_json_text("{").is_none());
    assert!(parse_json_text("[1,]").is_none());
    assert!(parse_json_text("tru").is_none());
    assert!(parse_json_text("12a").is_none());
    assert!(parse_json_text("\"unterminated").is_none());
    // a number one past the signed 64-bit range
    assert!(parse_json_text("9223372036854775808").is_none());
    assert!(parse_json_text("-9223372036854775809").is_none());
}

#[test]
fn message_round_trip_request() {
    let m = JSONRPCMessage::Request(JSONRPCRequest::new(
        RequestId::Number(1),
        "initialize".to_string(),
        Some(obj(vec![("protocolVersion", s("2025-03-26"))])),
    ));
    let text = encode_message(&m);
    assert_eq!(
        text,
        "{\"jsonrpc\":\"2.0\",\"id\":1,\"method\":\"initialize\",\
         \"params\":{\"protocolVersion\":\"2025-03-26\"}}"
    );
    match decode_message(&text).expect("the encoding must decode") {
        JSONRPCMessage::Request(r) => {
            assert_eq!(r.jsonrpc, "2.0");
            assert!(matches!(r.id, RequestId::Number(1)));
            assert_eq!(r.method, "initialize");
            assert!(r.params.is_some());
        },
        _ => panic!("a request must decode as a request"),
    }
}

#[test]
fn message_round_trip_all_variants() {
    let cases = vec![
        JSONRPCMessage::Request(JSONRPCRequest::new(
            RequestId::String("abc".to_string()),
            "tools/list".to_string(),
            None,
        )),
        JSONRPCMessage::Notification(JSONRPCNotification::new(
            "notifications/initialized".to_string(),
            Some(obj(vec![])),
        )),
        JSONRPCMessage::Response(JSONRPCResponse::new(
            RequestId::Number(7),
            obj(vec![("tools", JsonValue::Arr(vec![]))]),
        )),
        JSONRPCMessage::Error(JSONRPCError::new_with_details(
            RequestId::Number(9),
            -32600,
            "Unsupported method".to_string(),
            None,
        )),
    ];
    for m in cases {
        let text = encode_message(&m);
        let back = decode_message(&text).expect("the encoding must decode");
        assert_eq!(encode_message(&back), text);
    }
}

#[test]
fn decode_follows_structural_rules() {
    // a response: id and result
    match decode_message("{\"jsonrpc\":\"2.0\",\"id\":3,\"result\":{}}").unwrap() {
        JSONRPCMessage::Response(r) => assert!(matches!(r.id, RequestId::Number(3))),
        _ => panic!("id with result must read as a response"),
    }
    // an error: id and error
    match decode_message(
        "{\"jsonrpc\":\"2.0\",\"id\":3,\"error\":{\"code\":-32600,\"message\":\"nope\"}}",
    )
    .unwrap()
    {
        JSONRPCMessage::Error(e) => {
            assert_eq!(e.error.code, -32600);
            assert_eq!(e.error.message, "nope");
        },
        _ => panic!("id with error must read as an error"),
    }
    // a notification: method without id
    match decode_message("{\"jsonrpc\":\"2.0\",\"method\":\"notifications/foo\"}").unwrap() {
        JSONRPCMessage::Notification(n) => assert_eq!(n.method, "notifications/foo"),
        _ => panic!("method without id must read as a notification"),
    }
    // member order does not matter
    match decode_message("{\"method\":\"ping\",\"id\":\"x\",\"jsonrpc\":\"2.0\"}").unwrap() {
        JSONRPCMessage::Request(r) => assert_eq!(r.method, "ping"),
        _ => panic!("method with id must read as a request"),
    }
}

#[test]
fn decode_rejects_bad_version_and_shape() {
    // version absent
    assert!(decode_message("{\"id\":1,\"method\":\"ping\"}").is_err());
    // version mismatched
    assert!(decode_message("{\"jsonrpc\":\"1.0\",\"id\":1,\"method\":\"ping\"}").is_err());
    // no method, no result, no error
    assert!(decode_message("{\"jsonrpc\":\"2.0\",\"id\":1}").is_err());
    // not even JSON
    assert!(decode_message("hello").is_err());
    // not an object
    assert!(decode_message("[1,2,3]").is_err());
}

#[test]
fn unknown_members_of_params_survive_the_round_trip() {
    let m = JSONRPCMessage::Request(JSONRPCRequest::new(
        RequestId::Number(5),
        "tools/call".to_string(),
        Some(obj(vec![
            ("name", s("echo")),
            ("_meta", obj(vec![("progressToken", JsonValue::Int(99))])),
            ("vendorExtra", s("kept")),
        ])),
    ));
    let text = encode_message(&m);
    match decode_message(&text).unwrap() {
        JSONRPCMessage::Request(r) => {
            let params = r.params.expect("the parameters must survive");
            let rendered = to_json_text(&params);
            assert!(rendered.contains("\"vendorExtra\":\"kept\""));
            assert!(rendered.contains("\"progressToken\":99"));
        },
        _ => panic!("a request must decode as a request"),
    }
}

#[test]
fn encoding_agrees_with_a_standard_json_reader() {
    let m = JSONRPCMessage::Request(JSONRPCRequest::new(
        RequestId::Number(12),
        "tools/call".to_string(),
        Some(obj(vec![("name", s("echo")), ("count", JsonValue::Int(-3))])),
    ));
    let text = encode_message(&m);
    let v: serde_json::Value = serde_json::from_str(&text).expect("the wire text must be JSON");
    assert_eq!(v["jsonrpc"], "2.0");
    assert_eq!(v["id"], 12);
    assert_eq!(v["method"], "tools/call");
    assert_eq!(v["params"]["name"], "echo");
    assert_eq!(v["params"]["count"], -3);
}

#[test]
fn quotes_backslashes_and_controls_are_escaped_on_the_wire() {
    let v = s("a\"b\\c\nd\te");
    let text = to_json_text(&v);
    assert_eq!(text, "\"a\\\"b\\\\c\\u000ad\\u0009e\"");
    let back = parse_json_text(&text).expect("escaped text must parse");
    match back {
        JsonValue::Str(raw) => assert_eq!(raw, "a\"b\\c\nd\te"),
        _ => panic!("a string stays a string"),
    }
    // a standard reader agrees on the escaped text
    let std_v: serde_json::Value = serde_json::from_str(&text).unwrap();
    assert_eq!(std_v, serde_json::Value::String("a\"b\\c\nd\te".to_string()));
    // and a method holding a quote survives the message round trip
    let m = JSONRPCMessage::Request(JSONRPCRequest::new(
        RequestId::Number(1),
        "odd\"method".to_string(),
        None,
    ));
    match decode_message(&encode_message(&m)).unwrap() {
        JSONRPCMessage::Request(req) => assert_eq!(req.method, "odd\"method"),
        _ => panic!("a request stays a request"),
    }
}

#[test]
fn parser_accepts_short_escapes_and_whitespace() {
    // the short escapes of the JSON grammar
    let unescaped = |text: &str| match parse_json_text(text) {
        Some(JsonValue::Str(raw)) => raw,
        _ => panic!("escaped string text must parse"),
    };
    assert_eq!(unescaped("\"a\\nb\""), "a\nb");
    assert_eq!(unescaped("\"\\t\\r\\b\\f\\/\\\\\\\"\""), "\t\r\u{8}\u{c}/\\\"");
    // a control character written as \u00XX, either hex case
    assert_eq!(unescaped("\"\\u0009\""), "\t");
    assert_eq!(unescaped("\"\\u001F\""), "\u{1f}");
    // whitespace between tokens
    let spaced = " { \"a\" : [ 1 , true , null ] , \"b\" : \"x\" } ";
    let v = parse_json_text(spaced).expect("spaced text must parse");
    assert_eq!(to_json_text(&v), "{\"a\":[1,true,null],\"b\":\"x\"}");
}

#[test]
fn raw_controls_and_foreign_escapes_stay_outside() {
    // a raw control character inside a string does not parse
    assert!(parse_json_text("\"a\tb\"").is_none());
    assert!(parse_json_text("\"a\nb\"").is_none());
    // an unknown escape, and a \u escape beyond the control range
    assert!(parse_json_text("\"\\x\"").is_none());
    assert!(parse_json_text("\"\\u0041\"").is_none());
    assert!(parse_json_text("\"\\u00\"").is_none());
}

#[test]
fn plain_unicode_text_round_trips() {
    let m = JSONRPCMessage::Response(JSONRPCResponse::new(
        RequestId::Number(2),
        JsonValue::Str("grüße, 世界".to_string()),
    ));
    let text = encode_message(&m);
    match decode_message(&text).unwrap() {
        JSONRPCMessage::Response(resp) => match resp.result {
            JsonValue::Str(s2) => assert_eq!(s2, "grüße, 世界"),
            _ => panic!("a string stays a string"),
        },
        _ => panic!("a response stays a response"),
    }
}
