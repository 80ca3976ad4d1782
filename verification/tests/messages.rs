use context_server::messages::{
    error_response, is_null_value, ok_response, Notification, Request, RequestId, INTERNAL_ERROR,
    INVALID_PARAMS, INVALID_REQUEST, JSON_RPC_VERSION, METHOD_NOT_FOUND, PARSE_ERROR,
};
use context_server::text::{first_mark, is_white_space};
use serde_json::Value;

fn request(id: RequestId, method: &str, params: &str) -> String {
    Request {
        jsonrpc: JSON_RPC_VERSION,
        id,
        method,
        params,
    }
    .to_json()
}

fn notification(method: &str, params: &str) -> String {
    Notification {
        jsonrpc: JSON_RPC_VERSION,
        method,
        params,
    }
    .to_json()
}

fn read(text: &str) -> Value {
    serde_json::from_str(text).unwrap()
}

#[test]
fn error_codes() {
    assert_eq!(PARSE_ERROR, -32700);
    assert_eq!(INVALID_REQUEST, -32600);
    assert_eq!(METHOD_NOT_FOUND, -32601);
    assert_eq!(INVALID_PARAMS, -32602);
    assert_eq!(INTERNAL_ERROR, -32603);
}

#[test]
fn request_with_parameters() {
    assert_eq!(
        request(RequestId::Int(7), "tools/list", "{\"cursor\":null}"),
        "{\"jsonrpc\":\"2.0\",\"id\":7,\"method\":\"tools/list\",\"params\":{\"cursor\":null}}"
    );
}

#[test]
fn request_without_parameters() {
    assert_eq!(
        request(RequestId::Int(0), "ping", "null"),
        "{\"jsonrpc\":\"2.0\",\"id\":0,\"method\":\"ping\"}"
    );
}

#[test]
fn request_ids_of_all_kinds() {
    assert_eq!(RequestId::Int(i32::MIN).to_json(), "-2147483648");
    assert_eq!(RequestId::Int(i32::MAX).to_json(), "2147483647");
    assert_eq!(RequestId::Int(-1).to_json(), "-1");
    assert_eq!(RequestId::Int(10).to_json(), "10");
    assert_eq!(RequestId::Str("10".to_string()).to_json(), "\"10\"");
    assert_eq!(RequestId::Str(String::new()).to_json(), "\"\"");
}

#[test]
fn strings_are_escaped() {
    let id = RequestId::Str("\"\\\u{8}\t\n\u{c}\r\u{1}\u{1f}\u{7f}/é\u{1f600}".to_string());
    assert_eq!(
        id.to_json(),
        "\"\\\"\\\\\\b\\t\\n\\f\\r\\u0001\\u001f\u{7f}/é\u{1f600}\""
    );
}

#[test]
fn every_character_reads_back() {
    for n in 0..0x3000u32 {
        if let Some(c) = char::from_u32(n) {
            let text = RequestId::Str(c.to_string()).to_json();
            assert_eq!(read(&text), Value::from(c.to_string()));
            assert!(text.chars().all(|c| c >= ' '));
        }
    }
}

#[test]
fn notification_keeps_null_parameters() {
    assert_eq!(
        notification("notifications/initialized", "null"),
        "{\"jsonrpc\":\"2.0\",\"method\":\"notifications/initialized\",\"params\":null}"
    );
}

#[test]
fn response_with_result() {
    assert_eq!(
        ok_response(&RequestId::Str("a".to_string()), "{\"action\":\"accept\"}"),
        "{\"jsonrpc\":\"2.0\",\"id\":\"a\",\"result\":{\"action\":\"accept\"}}"
    );
}

#[test]
fn response_with_error() {
    assert_eq!(
        error_response(&RequestId::Int(3), METHOD_NOT_FOUND, "Method not found: \"x\""),
        "{\"jsonrpc\":\"2.0\",\"id\":3,\"error\":{\"code\":-32601,\"message\":\"Method not found: \\\"x\\\"\"}}"
    );
}

#[test]
fn messages_are_readable_json() {
    let text = request(RequestId::Str("q\"1".to_string()), "m\n", "[1,2]");
    let value = read(&text);
    assert_eq!(value["jsonrpc"], "2.0");
    assert_eq!(value["id"], "q\"1");
    assert_eq!(value["method"], "m\n");
    assert_eq!(value["params"], Value::from(vec![1, 2]));

    let value = read(&notification("n\\", "{}"));
    assert_eq!(value["method"], "n\\");
    assert!(value.get("id").is_none());

    let value = read(&ok_response(&RequestId::Int(-2), "[]"));
    assert_eq!(value["id"], -2);
    assert!(value.get("error").is_none());

    let value = read(&error_response(&RequestId::Int(9), INTERNAL_ERROR, "no\tway"));
    assert_eq!(value["error"]["code"], -32603);
    assert_eq!(value["error"]["message"], "no\tway");
    assert!(value.get("result").is_none());
}

#[test]
fn messages_that_differ_have_different_texts() {
    let one = request(RequestId::Int(1), "a", "{}");
    assert_ne!(one, request(RequestId::Int(2), "a", "{}"));
    assert_ne!(one, request(RequestId::Str("1".to_string()), "a", "{}"));
    assert_ne!(one, request(RequestId::Int(1), "b", "{}"));
    assert_ne!(one, request(RequestId::Int(1), "a", "null"));
    assert_ne!(notification("a", "1"), notification("a", "2"));
    assert_ne!(
        ok_response(&RequestId::Int(1), "1"),
        ok_response(&RequestId::Int(11), "1")
    );
    assert_ne!(
        error_response(&RequestId::Int(1), -1, ""),
        error_response(&RequestId::Int(1), 1, "")
    );
}

#[test]
fn messages_stand_on_one_line() {
    let id = RequestId::Str("a\nb".to_string());
    assert!(!request(RequestId::Int(1), "m\r\n", "{}").contains(['\n', '\r']));
    assert!(!notification("m\n", "{}").contains('\n'));
    assert!(!ok_response(&id, "1").contains('\n'));
    assert!(!error_response(&id, 0, "x\ny").contains('\n'));
}

#[test]
fn null_is_told_from_other_values() {
    assert!(is_null_value("null"));
    assert!(!is_null_value("\"null\""));
    assert!(!is_null_value("0"));
    assert!(!is_null_value("{}"));
    assert_eq!(serde_json::to_string(&Value::Null).unwrap(), "null");
    assert_eq!(serde_json::to_string(&()).unwrap(), "null");
    assert_eq!(serde_json::to_string(&None::<i32>).unwrap(), "null");
}

#[test]
fn white_space_is_that_of_unicode() {
    for n in 0..=0x10ffffu32 {
        if let Some(c) = char::from_u32(n) {
            assert_eq!(is_white_space(c), c.is_whitespace());
        }
    }
}

#[test]
fn first_mark_skips_white_space() {
    assert_eq!(first_mark(""), None);
    assert_eq!(first_mark(" \t\r\n"), None);
    assert_eq!(first_mark("{"), Some('{'));
    assert_eq!(first_mark(" \u{2003}\u{3000}[ ]"), Some('['));
    assert_eq!(first_mark("é["), Some('é'));
}
