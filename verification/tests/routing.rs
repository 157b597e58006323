use jdwp_mcp::json::Json;
use jdwp_mcp::protocol::{INVALID_REQUEST, PARSE_ERROR};
use jdwp_mcp::{handle_message, kind_of, Route};

fn refused(line: &str) -> (i32, String, String) {
    match handle_message(line) {
        Route::Refused { response, why } => {
            assert!(matches!(response.id, Json::Null));
            assert!(response.result.is_none());
            assert_eq!(response.jsonrpc, "2.0");
            let error = response.error.unwrap();
            assert!(error.data.is_none());
            (error.code, error.message, why)
        }
        other => panic!("{line} is not refused: {other:?}"),
    }
}

#[test]
fn a_line_that_is_no_json_is_a_parse_error() {
    let (code, message, why) = refused("{\"jsonrpc\":");
    assert_eq!((code, message.as_str()), (PARSE_ERROR, "Parse error"));
    assert!(why.starts_with("Parse error: EOF"), "{why}");
}

#[test]
fn a_bare_value_is_answered_and_not_taken_for_a_notification() {
    for (line, kind) in [
        ("42", "a number"),
        ("-1.5", "a number"),
        ("\"hello\"", "a string"),
        ("[]", "an array"),
        ("null", "null"),
        ("true", "a boolean"),
    ] {
        let (code, message, why) = refused(line);
        assert_eq!(code, INVALID_REQUEST, "{line}");
        assert_eq!(message, "Invalid request: a JSON-RPC message must be an object");
        assert_eq!(why, format!("Not a JSON-RPC message: expected an object, got {kind}"));
    }
    assert_eq!(kind_of(&Json::Object(Vec::new())), "an object");
}

#[test]
fn a_request_has_an_id_and_is_handed_on() {
    match handle_message(r#"{"jsonrpc":"2.0","id":7,"method":"tools/list","params":{"cursor":"x"}}"#) {
        Route::Request(request) => {
            assert!(matches!(request.id, Json::Unsigned(7)));
            assert_eq!(request.method, "tools/list");
            assert_eq!(request.jsonrpc, "2.0");
            assert!(request.params.unwrap().get("cursor").is_some());
        }
        other => panic!("{other:?}"),
    }
    match handle_message(r#"{"jsonrpc":"2.0","id":null,"method":"x","params":null}"#) {
        Route::Request(request) => {
            assert!(matches!(request.id, Json::Null), "a null id is an id");
            assert!(request.params.is_none(), "null stands for no parameters");
        }
        other => panic!("{other:?}"),
    }
}

#[test]
fn a_request_that_names_no_method_is_refused() {
    for (line, fault) in [
        (r#"{"jsonrpc":"2.0","id":1}"#, "missing field `method`"),
        (r#"{"id":1,"method":"x"}"#, "missing field `jsonrpc`"),
        (r#"{"id":1}"#, "missing field `jsonrpc`"),
        (r#"{"jsonrpc":2,"id":1,"method":"x"}"#, "invalid type: integer `2`, expected a string"),
        (r#"{"jsonrpc":-2,"id":1}"#, "invalid type: integer `-2`, expected a string"),
        (r#"{"jsonrpc":2.5,"id":1,"method":[]}"#, "invalid type: floating point `2.5`, expected a string"),
        (r#"{"jsonrpc":1e300,"id":1}"#, "invalid type: floating point `1e+300`, expected a string"),
        (r#"{"jsonrpc":"2.0","id":1,"method":["x"]}"#, "invalid type: sequence, expected a string"),
        (r#"{"id":1,"method":{"x":1}}"#, "invalid type: map, expected a string"),
        (r#"{"jsonrpc":"2.0","id":1,"method":null}"#, "invalid type: null, expected a string"),
        (r#"{"jsonrpc":true,"id":null,"method":false}"#, "invalid type: boolean `true`, expected a string"),
        (r#"{"jsonrpc":"2.0","id":1,"method":false}"#, "invalid type: boolean `false`, expected a string"),
    ] {
        let (code, message, why) = refused(line);
        assert_eq!((code, message.as_str()), (INVALID_REQUEST, "Invalid request"), "{line}");
        assert_eq!(why, format!("Invalid request: {fault}"), "{line}");
    }
}

#[test]
fn only_an_object_without_an_id_is_met_with_silence() {
    assert!(matches!(
        handle_message(r#"{"jsonrpc":"2.0","method":"notifications/initialized"}"#),
        Route::Notify(n) if n.method == "notifications/initialized" && n.params.is_none()
    ));
    for (line, fault) in [
        ("{}", "missing field `jsonrpc`"),
        (r#"{"jsonrpc":"2.0"}"#, "missing field `method`"),
        (r#"{"jsonrpc":"2.0","method":3}"#, "invalid type: integer `3`, expected a string"),
    ] {
        match handle_message(line) {
            Route::Ignored { why } => assert_eq!(why, format!("Invalid notification: {fault}")),
            other => panic!("{other:?}"),
        }
    }
}

/// What serde makes of the two members by itself: a text, or the words of its error.
fn by_serde(line: &str) -> Result<(), String> {
    let value: serde_json::Value = serde_json::from_str(line).unwrap();
    for member in ["jsonrpc", "method"] {
        if let Some(found) = value.get(member) {
            serde_json::from_value::<String>(found.clone()).map_err(|e| e.to_string())?;
        }
    }
    Ok(())
}

#[test]
fn the_fault_of_a_member_is_in_the_words_of_serde() {
    for line in [
        r#"{"jsonrpc":0.1,"id":1}"#,
        r#"{"jsonrpc":-0.0,"id":1}"#,
        r#"{"jsonrpc":18446744073709551615,"id":1}"#,
        r#"{"jsonrpc":18446744073709551616,"id":1}"#,
        r#"{"jsonrpc":-9223372036854775808,"id":1}"#,
        r#"{"method":{},"id":1}"#,
    ] {
        let (_, _, why) = refused(line);
        assert_eq!(why, format!("Invalid request: {}", by_serde(line).unwrap_err()), "{line}");
    }
}
