use jdwp_mcp::json;
use jdwp_mcp::json::Json;

#[test]
fn what_is_written_is_read_back() {
    let text = r#"{"a":[1,-2,true,null,"x\ny"],"b":{"c":1.5}}"#;
    let value = json::read(text).unwrap();
    assert_eq!(json::write(&value), text);
    assert_eq!(json::write(&json::read(&json::write_pretty(&value)).unwrap()), text);
}

#[test]
fn the_keys_of_an_object_come_in_order_and_the_last_of_two_counts() {
    let value = json::read(r#"{"b":1,"a":2,"b":3}"#).unwrap();
    assert_eq!(json::write(&value), r#"{"a":2,"b":3}"#);
}

#[test]
fn a_bound_key_is_found_again() {
    let mut entries: Vec<(String, Json)> = Vec::new();
    json::bind(&mut entries, "line", Json::integer(-4));
    json::bind(&mut entries, "class", Json::text("A"));
    json::bind(&mut entries, "line", Json::integer(7));
    let object = Json::Object(entries);
    assert!(matches!(object.get("line"), Some(Json::Unsigned(7))));
    assert!(object.get("method").is_none());
    assert_eq!(json::write(&object.duplicate()), r#"{"class":"A","line":7}"#);
}

#[test]
fn numbers_are_told_apart() {
    assert!(matches!(json::read("18446744073709551615"), Ok(Json::Unsigned(u64::MAX))));
    assert!(matches!(json::read("-9223372036854775808"), Ok(Json::Negative(i64::MIN))));
    assert!(matches!(json::read("0.5"), Ok(Json::Other(_))));
    assert!(matches!(json::read("-0"), Ok(Json::Other(_)) | Ok(Json::Unsigned(0)) | Ok(Json::Negative(0))));
}

#[test]
fn a_text_that_is_no_json_says_why() {
    let why = json::read("{").unwrap_err();
    assert!(why.contains("EOF while parsing an object"), "{why}");
}

#[test]
fn a_value_and_its_plain_form_say_the_same() {
    let value = serde_json::Value::from(vec![1u64, 2]);
    let plain = json::json_of(value.clone());
    assert_eq!(json::write(&plain), "[1,2]");
    assert_eq!(json::value_of(&plain), value);
}
