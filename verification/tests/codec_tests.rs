use aios::codec::{from_json, to_json, JsonValue};

fn s(x: &str) -> String {
    x.to_string()
}

#[test]
fn serialize_scalars() {
    assert_eq!(to_json(&JsonValue::Null), "null");
    assert_eq!(to_json(&JsonValue::Bool(true)), "true");
    assert_eq!(to_json(&JsonValue::Bool(false)), "false");
    assert_eq!(to_json(&JsonValue::Int(0)), "0");
    assert_eq!(to_json(&JsonValue::Int(42)), "42");
    assert_eq!(to_json(&JsonValue::Int(-7)), "-7");
    assert_eq!(to_json(&JsonValue::Int(i64::MAX)), "9223372036854775807");
    assert_eq!(to_json(&JsonValue::Int(i64::MIN)), "-9223372036854775808");
}

#[test]
fn serialize_object_exact() {
    let v = JsonValue::Obj(vec![(s("a"), JsonValue::Int(1))]);
    assert_eq!(to_json(&v), "{\"a\":1}");
}

#[test]
fn serialize_escapes() {
    let v = JsonValue::Str(s("a\"b\\c\nd\re\tf"));
    // the serialized text differs from the raw content: every special
    // character is escaped
    assert_eq!(to_json(&v), "\"a\\\"b\\\\c\\nd\\re\\tf\"");
}

#[test]
fn parse_scalars() {
    assert_eq!(from_json("null"), Some(JsonValue::Null));
    assert_eq!(from_json("true"), Some(JsonValue::Bool(true)));
    assert_eq!(from_json("false"), Some(JsonValue::Bool(false)));
    assert_eq!(from_json("42"), Some(JsonValue::Int(42)));
    assert_eq!(from_json("-42"), Some(JsonValue::Int(-42)));
    assert_eq!(from_json("\"hi\""), Some(JsonValue::Str(s("hi"))));
}

#[test]
fn parse_int_range() {
    assert_eq!(
        from_json("9223372036854775807"),
        Some(JsonValue::Int(i64::MAX))
    );
    assert_eq!(
        from_json("-9223372036854775808"),
        Some(JsonValue::Int(i64::MIN))
    );
    // one past either end of the 64-bit range is rejected
    assert_eq!(from_json("9223372036854775808"), None);
    assert_eq!(from_json("-9223372036854775809"), None);
}

#[test]
fn parse_rejects_malformed() {
    assert_eq!(from_json(""), None);
    assert_eq!(from_json("nul"), None);
    assert_eq!(from_json("{"), None);
    assert_eq!(from_json("[1,]"), None);
    assert_eq!(from_json("{\"a\":}"), None);
    assert_eq!(from_json("\"unterminated"), None);
    assert_eq!(from_json("42 "), None);
    assert_eq!(from_json("-"), None);
}

#[test]
fn round_trip_nested() {
    let v = JsonValue::Obj(vec![
        (s("id"), JsonValue::Str(s("x\n\"y\""))),
        (
            s("items"),
            JsonValue::Arr(vec![
                JsonValue::Int(-3),
                JsonValue::Null,
                JsonValue::Bool(true),
                JsonValue::Obj(vec![]),
                JsonValue::Arr(vec![]),
            ]),
        ),
        (s("count"), JsonValue::Int(5)),
    ]);
    let text = to_json(&v);
    assert_eq!(from_json(&text), Some(v));
}

#[test]
fn round_trip_empty_containers() {
    assert_eq!(from_json(&to_json(&JsonValue::Arr(vec![]))), Some(JsonValue::Arr(vec![])));
    assert_eq!(from_json(&to_json(&JsonValue::Obj(vec![]))), Some(JsonValue::Obj(vec![])));
    assert_eq!(from_json(&to_json(&JsonValue::Str(s("")))), Some(JsonValue::Str(s(""))));
}

#[test]
fn int_to_string_values() {
    assert_eq!(aios::codec::int_to_string(0), "0");
    assert_eq!(aios::codec::int_to_string(10), "10");
    assert_eq!(aios::codec::int_to_string(-1), "-1");
    assert_eq!(aios::codec::int_to_string(100), "100");
    assert_eq!(aios::codec::int_to_string(i64::MIN), "-9223372036854775808");
}

#[test]
fn get_field_lookup() {
    let v = from_json("{\"a\":1,\"b\":\"two\",\"a\":3}").unwrap();
    assert_eq!(aios::codec::get_field(&v, "a"), Some(&JsonValue::Int(1)));
    assert_eq!(aios::codec::get_field(&v, "c"), None);
    assert_eq!(
        aios::codec::get_str_field(&v, "b").map(|x| x.as_str()),
        Some("two")
    );
    assert_eq!(aios::codec::get_str_field(&v, "a"), None);
}

#[test]
fn dup_value_deep() {
    let v = from_json("{\"a\":[1,\"x\",{\"b\":null}]}").unwrap();
    let w = aios::codec::dup_value(&v);
    assert_eq!(v, w);
}
