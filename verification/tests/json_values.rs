use codex_acp::json::{Json, JsonObject};
use codex_acp::rpc_error::RpcError;
use serde_json::{Number, Value};

fn object(entries: Vec<(&str, Json)>) -> Json {
    let mut object = JsonObject::new();
    for (key, value) in entries {
        object = object.with(key, value);
    }
    Json::Object(object)
}

#[test]
fn object_keeps_the_order_of_insertion() {
    let json = object(vec![
        ("zeta", Json::Null),
        ("alpha", Json::Bool(true)),
        ("mid", Json::string("x")),
    ]);
    assert_eq!(
        json.into_text(),
        Ok("{\"zeta\":null,\"alpha\":true,\"mid\":\"x\"}".to_string())
    );
}

#[test]
fn putting_a_key_again_replaces_its_value_in_place() {
    let json = object(vec![
        ("a", Json::from_u64(1)),
        ("b", Json::from_u64(2)),
        ("a", Json::from_u64(3)),
    ]);
    assert_eq!(json.into_text(), Ok("{\"a\":3,\"b\":2}".to_string()));
}

#[test]
fn what_is_put_is_found_and_the_rest_stays() {
    let object = JsonObject::new()
        .with("a", Json::Bool(false))
        .with("b", Json::Null)
        .with("a", Json::Bool(true));
    assert_eq!(object.get("a"), Some(&Json::Bool(true)));
    assert_eq!(object.get("b"), Some(&Json::Null));
    assert_eq!(object.get("c"), None);
    assert_eq!(object.into_member("b"), Some(Json::Null));
    assert_eq!(JsonObject::new().into_member("b"), None);
}

#[test]
fn only_an_object_has_fields() {
    assert_eq!(Json::Null.get("a"), None);
    assert_eq!(Json::Array(vec![Json::Null]).into_field("0"), None);
    assert_eq!(
        object(vec![("a", Json::from_u64(7))]).into_field("a"),
        Some(Json::from_u64(7))
    );
}

#[test]
fn accessors_tell_the_kinds_apart() {
    assert_eq!(Json::Bool(true).as_bool(), Some(true));
    assert_eq!(Json::string("true").as_bool(), None);
    assert_eq!(Json::string("x").into_string(), Some("x".to_string()));
    assert_eq!(Json::Null.into_string(), None);
}

#[test]
fn parse_reads_every_kind() {
    let parsed = Json::parse(" [null, true, 18446744073709551615, -3, \"a\\nb\", {\"k\": []}] ");
    assert_eq!(
        parsed,
        Ok(Json::Array(vec![
            Json::Null,
            Json::Bool(true),
            Json::from_u64(u64::MAX),
            Json::Number(Number::from(-3i64)),
            Json::string("a\nb"),
            object(vec![("k", Json::Array(vec![]))]),
        ]))
    );
}

#[test]
fn parse_reports_what_is_wrong() {
    assert_eq!(
        Json::parse("{"),
        Err("EOF while parsing an object at line 1 column 1".to_string())
    );
    assert_eq!(
        Json::parse(""),
        Err("EOF while parsing a value at line 1 column 0".to_string())
    );
}

#[test]
fn parse_takes_the_last_of_two_values_under_one_key() {
    assert_eq!(
        Json::parse("{\"a\":1,\"b\":2,\"a\":3}"),
        Ok(object(vec![("a", Json::from_u64(3)), ("b", Json::from_u64(2))]))
    );
}

#[test]
fn text_reads_back() {
    let build = || {
        object(vec![
            ("", Json::Null),
            ("quote \" and \\ and \u{1}", Json::string("line\r\nbreak \u{7f} \u{1F600}")),
            (
                "list",
                Json::Array(vec![
                    Json::from_u64(0),
                    Json::Number(Number::from(i64::MIN)),
                    Json::Bool(false),
                    object(vec![]),
                ]),
            ),
        ])
    };
    let text = build().into_text().unwrap();
    assert!(!text.contains('\n'));
    assert_eq!(Json::parse(&text), Ok(build()));
}

#[test]
fn nesting_of_127_is_read_and_of_128_is_not() {
    let nested = |depth: usize| format!("{}{}", "[".repeat(depth), "]".repeat(depth));
    assert!(Json::parse(&nested(127)).is_ok());
    assert_eq!(
        Json::parse(&nested(128)),
        Err("recursion limit exceeded at line 1 column 128".to_string())
    );
}

#[test]
fn plain_values_have_no_floats_and_are_not_too_deep() {
    for text in ["null", "true", "7", "-7", "18446744073709551615", "\"1.5\"", "[]", "{\"a\":[1]}"] {
        assert!(Json::parse(text).unwrap().is_plain(2));
    }
    for text in ["1.5", "18446744073709551616", "-0", "[1e2]", "{\"a\":{\"b\":0.1}}"] {
        assert!(!Json::parse(text).unwrap().is_plain(9));
    }
    let nested = Json::parse("[[{}]]").unwrap();
    assert!(nested.is_plain(3));
    assert!(!nested.is_plain(2));
    assert!(!Json::Array(vec![]).is_plain(0));
    assert!(Json::Null.is_plain(0));
    let raw = "$serde_json::private::RawValue";
    assert!(!object(vec![(raw, Json::Null)]).is_plain(5));
    assert!(object(vec![("a", Json::Null), (raw, Json::Null)]).is_plain(5));
}

#[test]
fn values_convert_both_ways() {
    let mut map = serde_json::Map::new();
    map.insert("n".to_string(), Value::Number(Number::from_f64(0.5).unwrap()));
    map.insert(
        "l".to_string(),
        Value::Array(vec![Value::Null, Value::Bool(true), Value::String("s".to_string())]),
    );
    let value = Value::Object(map);
    let json = Json::from_value(value.clone());
    assert_eq!(json.get("n"), Some(&Json::Number(Number::from_f64(0.5).unwrap())));
    assert_eq!(json.into_value(), value);
}

#[test]
fn invalid_params_has_its_code_message_and_data() {
    assert_eq!(
        RpcError::invalid_params("no such thing"),
        RpcError {
            code: -32602,
            message: "Invalid params".to_string(),
            data: Some(Json::string("no such thing")),
        }
    );
}

#[test]
fn internal_error_has_its_code_message_and_data() {
    assert_eq!(
        RpcError::internal_error("broken", Json::Bool(true)),
        RpcError { code: -32603, message: "broken".to_string(), data: Some(Json::Bool(true)) }
    );
}
