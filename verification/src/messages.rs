//! The JSON-RPC messages of the protocol, and the text of those sent.
//!
//! A JSON value that only passes through is held as its JSON text.

use crate::json::{int_text, json_i32, json_string, string_text};
use vstd::prelude::*;

verus! {

/// The version that every message states.
pub const JSON_RPC_VERSION: &'static str = "2.0";

/// JSON-RPC error code: the text is no JSON.
pub const PARSE_ERROR: i32 = -32700;

/// JSON-RPC error code: the JSON is no request.
pub const INVALID_REQUEST: i32 = -32600;

/// JSON-RPC error code: the method is not known.
pub const METHOD_NOT_FOUND: i32 = -32601;

/// JSON-RPC error code: the parameters do not fit the method.
pub const INVALID_PARAMS: i32 = -32602;

/// JSON-RPC error code: the method failed.
pub const INTERNAL_ERROR: i32 = -32603;

/// The name that a request goes by, chosen by the side that sends it.
#[derive(Debug, Clone, PartialEq, Eq, Hash)]
pub enum RequestId {
    Int(i32),
    Str(String),
}

/// A request's name, as the contracts see it.
pub enum RequestIdView {
    Int(i32),
    Str(Seq<char>),
}

impl View for RequestId {
    type V = RequestIdView;

    open spec fn view(&self) -> RequestIdView {
        match self {
            RequestId::Int(n) => RequestIdView::Int(*n),
            RequestId::Str(s) => RequestIdView::Str(s@),
        }
    }
}

/// The JSON text of a request's name: a number or a string.
pub open spec fn id_text(id: RequestIdView) -> Seq<char> {
    match id {
        RequestIdView::Int(n) => int_text(n as int),
        RequestIdView::Str(s) => string_text(s),
    }
}

impl RequestId {
    /// The JSON text of the name.
    pub fn to_json(&self) -> (text: String)
        ensures
            text@ == id_text(self@),
            text@ == (match self {
                RequestId::Int(n) => int_text(*n as int),
                RequestId::Str(s) => string_text(s@),
            }),
    {
        match self {
            RequestId::Int(n) => json_i32(*n),
            RequestId::Str(s) => json_string(s.as_str()),
        }
    }
}

/// Whether a JSON value is null, by its JSON text.
pub fn is_null_value(value: &str) -> (null: bool)
    ensures
        null == (value@ == "null"@),
{
    *value == *"null"
}

/// A request to the server. With parameters of type `&str`, these are JSON text.
pub struct Request<'a, T> {
    pub jsonrpc: &'static str,
    pub id: RequestId,
    pub method: &'a str,
    pub params: T,
}

/// The text of a request: an object with the members `jsonrpc`, `id`, `method`
/// and, unless the parameters are null, `params`.
pub open spec fn request_text(
    jsonrpc: Seq<char>,
    id: RequestIdView,
    method: Seq<char>,
    params: Seq<char>,
) -> Seq<char> {
    "{\"jsonrpc\":"@ + (string_text(jsonrpc) + (",\"id\":"@ + (id_text(id) + (",\"method\":"@ + (
    string_text(method) + params_text(params))))))
}

/// What follows a request's method.
pub open spec fn params_text(params: Seq<char>) -> Seq<char> {
    if params == "null"@ {
        "}"@
    } else {
        ",\"params\":"@ + (params + "}"@)
    }
}

impl<'a> Request<'a, &'a str> {
    /// The request as JSON text.
    pub fn to_json(&self) -> (text: String)
        ensures
            text@ == request_text(self.jsonrpc@, self.id@, self.method@, self.params@),
    {
        let mut text = String::new();
        text.append("{\"jsonrpc\":");
        text.append(json_string(self.jsonrpc).as_str());
        text.append(",\"id\":");
        text.append(self.id.to_json().as_str());
        text.append(",\"method\":");
        text.append(json_string(self.method).as_str());
        if !is_null_value(self.params) {
            text.append(",\"params\":");
            text.append(self.params);
        }
        text.append("}");
        assert(text@ =~= request_text(self.jsonrpc@, self.id@, self.method@, self.params@));
        text
    }
}

/// A notification to the server. With parameters of type `&str`, these are JSON
/// text.
pub struct Notification<'a, T> {
    pub jsonrpc: &'static str,
    pub method: &'a str,
    pub params: T,
}

/// The text of a notification: an object with the members `jsonrpc`, `method`
/// and `params`.
pub open spec fn notification_text(
    jsonrpc: Seq<char>,
    method: Seq<char>,
    params: Seq<char>,
) -> Seq<char> {
    "{\"jsonrpc\":"@ + (string_text(jsonrpc) + (",\"method\":"@ + (string_text(method) + (
    ",\"params\":"@ + (params + "}"@)))))
}

impl<'a> Notification<'a, &'a str> {
    /// The notification as JSON text.
    pub fn to_json(&self) -> (text: String)
        ensures
            text@ == notification_text(self.jsonrpc@, self.method@, self.params@),
    {
        let mut text = String::new();
        text.append("{\"jsonrpc\":");
        text.append(json_string(self.jsonrpc).as_str());
        text.append(",\"method\":");
        text.append(json_string(self.method).as_str());
        text.append(",\"params\":");
        text.append(self.params);
        text.append("}");
        assert(text@ =~= notification_text(self.jsonrpc@, self.method@, self.params@));
        text
    }
}

/// The text of a response that carries a result: an object with the members
/// `jsonrpc`, `id` and `result`.
pub open spec fn ok_response_text(id: RequestIdView, result: Seq<char>) -> Seq<char> {
    "{\"jsonrpc\":"@ + (string_text(JSON_RPC_VERSION@) + (",\"id\":"@ + (id_text(id) + (
    ",\"result\":"@ + (result + "}"@)))))
}

/// The text of a response that reports an error: an object with the members
/// `jsonrpc`, `id` and `error`, the last an object with `code` and `message`.
pub open spec fn error_response_text(id: RequestIdView, code: i32, message: Seq<char>) -> Seq<
    char,
> {
    "{\"jsonrpc\":"@ + (string_text(JSON_RPC_VERSION@) + (",\"id\":"@ + (id_text(id) + (
    ",\"error\":{\"code\":"@ + (int_text(code as int) + (",\"message\":"@ + (string_text(message)
        + "}}"@)))))))
}

/// The response to a request of the server that carries its result, which is
/// JSON text.
pub fn ok_response(id: &RequestId, result: &str) -> (text: String)
    ensures
        text@ == ok_response_text(id@, result@),
{
    let mut text = String::new();
    text.append("{\"jsonrpc\":");
    text.append(json_string(JSON_RPC_VERSION).as_str());
    text.append(",\"id\":");
    text.append(id.to_json().as_str());
    text.append(",\"result\":");
    text.append(result);
    text.append("}");
    assert(text@ =~= ok_response_text(id@, result@));
    text
}

/// The response to a request of the server that reports an error.
pub fn error_response(id: &RequestId, code: i32, message: &str) -> (text: String)
    ensures
        text@ == error_response_text(id@, code, message@),
{
    let mut text = String::new();
    text.append("{\"jsonrpc\":");
    text.append(json_string(JSON_RPC_VERSION).as_str());
    text.append(",\"id\":");
    text.append(id.to_json().as_str());
    text.append(",\"error\":{\"code\":");
    text.append(json_i32(code).as_str());
    text.append(",\"message\":");
    text.append(json_string(message).as_str());
    text.append("}}");
    assert(text@ =~= error_response_text(id@, code, message@));
    text
}

/// A request of the server. The parameters are JSON text.
pub struct AnyRequest<'a> {
    pub jsonrpc: &'a str,
    pub id: RequestId,
    pub method: &'a str,
    pub params: Option<&'a str>,
}

/// An error that a response reports.
#[derive(Debug)]
pub struct Error {
    pub message: String,
    pub code: i32,
}

/// A response of the server. The result is JSON text.
pub struct AnyResponse<'a> {
    pub jsonrpc: &'a str,
    pub id: RequestId,
    pub error: Option<Error>,
    pub result: Option<&'a str>,
}

/// A notification of the server, whose parameters are of the type `V`.
#[derive(Debug, Clone)]
pub struct AnyNotification<'a, V> {
    pub jsonrpc: &'a str,
    pub method: String,
    pub params: Option<V>,
}

/// The parameters of a notification as its handlers get them.
pub enum Params<V> {
    Null,
    Value(V),
}

} // verus!
