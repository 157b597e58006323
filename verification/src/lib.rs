//! A server that debugs Java programs over JDWP and speaks the Model Context Protocol.
//!
//! This crate is what the server decides and computes: which message gets which answer, what is armed and
//! what it reads as, what is kept of a session, how a set of stop points is written down and read back, and
//! how class files and generic signatures are read. It performs no input or output.

use json::{Json, JsonView};
use protocol::{
    JsonRpcError, JsonRpcNotification, JsonRpcRequest, JsonRpcResponse, INVALID_REQUEST, PARSE_ERROR,
};
use vstd::prelude::*;

pub mod args;
pub mod class_build;
pub mod class_format;
pub mod class_laws;
pub mod classfile;
pub mod export_laws;
pub mod generics;
pub mod generics_grammar;
pub mod generics_laws;
pub mod generics_parse;
pub mod jdwp;
pub mod json;
pub mod key_map;
pub mod outcome_laws;
pub mod protocol;
pub mod reads;
pub mod reply;
pub mod session;
pub mod set_format;
pub mod set_laws;
pub mod stop_point;
pub mod stop_point_set;
pub mod text;
pub mod text_map;
pub mod time;
pub mod tool_texts;
pub mod tools;
pub mod uuid;
pub mod value_reads;

verus! {

/// What becomes of an incoming line.
#[derive(Debug)]
pub enum Route {
    /// It is answered with an error. `why` says in words what was wrong with it.
    Refused { response: JsonRpcResponse, why: String },
    /// It is to be handled and answered.
    Request(JsonRpcRequest),
    /// It is to be handled, and gets no answer.
    Notify(JsonRpcNotification),
    /// It gets no answer and is not handled. `why` says in words what was wrong with it.
    Ignored { why: String },
}

/// What a message is.
pub ghost enum Message {
    Request { jsonrpc: Seq<char>, id: JsonView, method: Seq<char>, params: Option<JsonView> },
    /// It has an id and is no request.
    BadRequest { why: Seq<char> },
    Notification { jsonrpc: Seq<char>, method: Seq<char>, params: Option<JsonView> },
    /// It has no id and is no notification.
    BadNotification { why: Seq<char> },
    /// It is no object.
    NoMessage,
}

/// The parameters of a message. Null stands for none.
pub open spec fn params_of(value: JsonView) -> Option<JsonView> {
    match json::member(value, "params"@) {
        Some(JsonView::Null) => None,
        params => params,
    }
}

/// The protocol and the method that a message names. A member that is no text is found before one that is
/// missing, and each in the order of the two.
pub open spec fn names_of(value: JsonView) -> Result<(Seq<char>, Seq<char>), Seq<char>> {
    match (json::member(value, "jsonrpc"@), json::member(value, "method"@)) {
        (Some(JsonView::Text(jsonrpc)), Some(JsonView::Text(method))) => Ok((jsonrpc, method)),
        (Some(JsonView::Text(_)), None) => Err("missing field `method`"@),
        (None, None) => Err("missing field `jsonrpc`"@),
        (None, Some(JsonView::Text(_))) => Err("missing field `jsonrpc`"@),
        (Some(JsonView::Text(_)), Some(method)) => Err(json::no_text(method)),
        (None, Some(method)) => Err(json::no_text(method)),
        (Some(jsonrpc), _) => Err(json::no_text(jsonrpc)),
    }
}

/// What a value is as a message: an object with an `id` is a request, and one without is a notification.
/// Either names its protocol and its method by texts.
pub open spec fn message(value: JsonView) -> Message {
    if !(value is Object) {
        Message::NoMessage
    } else {
        match (json::member(value, "id"@), names_of(value)) {
            (Some(id), Ok((jsonrpc, method))) => Message::Request {
                jsonrpc,
                id,
                method,
                params: params_of(value),
            },
            (Some(_), Err(why)) => Message::BadRequest { why },
            (None, Ok((jsonrpc, method))) => Message::Notification {
                jsonrpc,
                method,
                params: params_of(value),
            },
            (None, Err(why)) => Message::BadNotification { why },
        }
    }
}

/// Whether a response is an error without an id.
pub open spec fn is_refusal(r: JsonRpcResponse, code: i32, words: Seq<char>) -> bool {
    &&& r.jsonrpc@ == "2.0"@
    &&& r.id@ == JsonView::Null
    &&& r.result is None
    &&& r.error is Some
    &&& r.error->0.code == code
    &&& r.error->0.message@ == words
    &&& r.error->0.data is None
}

/// Whether optional parameters say what they should.
pub open spec fn says(params: Option<Json>, what: Option<JsonView>) -> bool {
    match (params, what) {
        (Some(p), Some(w)) => p@ == w,
        (None, None) => true,
        _ => false,
    }
}

/// Whether a route is the one for a message.
pub open spec fn is_routed(route: Route, value: JsonView) -> bool {
    match message(value) {
        Message::NoMessage => {
            &&& route matches Route::Refused { response, why }
            &&& is_refusal(
                response,
                INVALID_REQUEST,
                "Invalid request: a JSON-RPC message must be an object"@,
            )
            &&& why@ == "Not a JSON-RPC message: expected an object, got "@ + kind(value)
        },
        Message::BadRequest { why: fault } => {
            &&& route matches Route::Refused { response, why }
            &&& is_refusal(response, INVALID_REQUEST, "Invalid request"@)
            &&& why@ == "Invalid request: "@ + fault
        },
        Message::Request { jsonrpc, id, method, params } => {
            &&& route matches Route::Request(request)
            &&& request.jsonrpc@ == jsonrpc
            &&& request.id@ == id
            &&& request.method@ == method
            &&& says(request.params, params)
        },
        Message::BadNotification { why: fault } => {
            &&& route matches Route::Ignored { why }
            &&& why@ == "Invalid notification: "@ + fault
        },
        Message::Notification { jsonrpc, method, params } => {
            &&& route matches Route::Notify(notification)
            &&& notification.jsonrpc@ == jsonrpc
            &&& notification.method@ == method
            &&& says(notification.params, params)
        },
    }
}

/// An error without an id, for a message that cannot be read or routed.
pub fn error_response(code: i32, message: &str) -> (r: JsonRpcResponse)
    ensures
        is_refusal(r, code, message@),
{
    JsonRpcResponse {
        jsonrpc: text::owned("2.0"),
        id: Json::Null,
        result: None,
        error: Some(JsonRpcError { code, message: text::owned(message), data: None }),
    }
}

/// What kind of value it is, in words.
pub open spec fn kind(value: JsonView) -> Seq<char> {
    match value {
        JsonView::Null => "null"@,
        JsonView::Bool(_) => "a boolean"@,
        JsonView::Unsigned(_) | JsonView::Negative(_) | JsonView::Other(_) => "a number"@,
        JsonView::Text(_) => "a string"@,
        JsonView::Array(_) => "an array"@,
        JsonView::Object(_) => "an object"@,
    }
}

/// What kind of value it is, in words.
pub fn kind_of(value: &Json) -> (r: &'static str)
    ensures
        r@ == kind(value@),
{
    match value {
        Json::Null => "null",
        Json::Bool(_) => "a boolean",
        Json::Unsigned(_) | Json::Negative(_) | Json::Other(_) => "a number",
        Json::Text(_) => "a string",
        Json::Array(_) => "an array",
        Json::Object(_) => "an object",
    }
}

/// The text at `key`, if there is anything; the words of the error where it is no text.
fn text_member(value: &Json, key: &str) -> (r: Result<Option<String>, String>)
    requires
        value@.wf(),
    ensures
        match json::member(value@, key@) {
            None => r == Ok::<Option<String>, String>(None),
            Some(JsonView::Text(s)) => r matches Ok(Some(found)) && found@ == s,
            Some(other) => r is Err && r->Err_0@ == json::no_text(other),
        },
{
    match value.get(key) {
        None => Ok(None),
        Some(found) => {
            proof {
                json::what_is_looked_up_is_wf(value@->Object_0, key@);
            }
            match json::text_of(found) {
                Ok(s) => Ok(Some(s)),
                Err(why) => Err(why),
            }
        },
    }
}

/// The protocol and the method that a message names, or what is wrong with it.
fn message_names(value: &Json) -> (r: Result<(String, String), String>)
    requires
        value@.wf(),
    ensures
        match names_of(value@) {
            Ok((jsonrpc, method)) => r is Ok && r->Ok_0.0@ == jsonrpc && r->Ok_0.1@ == method,
            Err(why) => r is Err && r->Err_0@ == why,
        },
{
    let jsonrpc = match text_member(value, "jsonrpc") {
        Err(why) => {
            return Err(why);
        },
        Ok(jsonrpc) => jsonrpc,
    };
    let method = match text_member(value, "method") {
        Err(why) => {
            return Err(why);
        },
        Ok(method) => method,
    };
    match (jsonrpc, method) {
        (Some(jsonrpc), Some(method)) => Ok((jsonrpc, method)),
        (Some(_), None) => Err(text::owned("missing field `method`")),
        (None, _) => Err(text::owned("missing field `jsonrpc`")),
    }
}

fn params_member(value: &Json) -> (r: Option<Json>)
    ensures
        says(r, params_of(value@)),
{
    match value.get("params") {
        Some(Json::Null) => None,
        Some(params) => Some(params.duplicate()),
        None => None,
    }
}

/// What becomes of a message. Anything but a notification is answered.
pub fn route(value: &Json) -> (r: Route)
    requires
        value@.wf(),
    ensures
        is_routed(r, value@),
{
    match value {
        Json::Object(_) => {},
        _ => {
            return Route::Refused {
                response: error_response(
                    INVALID_REQUEST,
                    "Invalid request: a JSON-RPC message must be an object",
                ),
                why: text::owned("Not a JSON-RPC message: expected an object, got ").concat(
                    kind_of(value),
                ),
            };
        },
    }
    let names = message_names(value);
    match value.get("id") {
        Some(id) => match names {
            Ok((jsonrpc, method)) => Route::Request(
                JsonRpcRequest {
                    jsonrpc,
                    id: id.duplicate(),
                    method,
                    params: params_member(value),
                },
            ),
            Err(why) => Route::Refused {
                response: error_response(INVALID_REQUEST, "Invalid request"),
                why: text::owned("Invalid request: ").concat(why.as_str()),
            },
        },
        None => match names {
            Ok((jsonrpc, method)) => Route::Notify(
                JsonRpcNotification { jsonrpc, method, params: params_member(value) },
            ),
            Err(why) => Route::Ignored {
                why: text::owned("Invalid notification: ").concat(why.as_str()),
            },
        },
    }
}

/// What becomes of an incoming line.
pub fn handle_message(line: &str) -> (r: Route)
    ensures
        match json::json_reading(line@) {
            Ok(value) => is_routed(r, value),
            Err(reason) => {
                &&& r matches Route::Refused { response, why }
                &&& is_refusal(response, PARSE_ERROR, "Parse error"@)
                &&& why@ == "Parse error: "@ + reason
            },
        },
{
    match json::read(line) {
        Ok(value) => route(&value),
        Err(why) => Route::Refused {
            response: error_response(PARSE_ERROR, "Parse error"),
            why: text::owned("Parse error: ").concat(why.as_str()),
        },
    }
}

/// Silence means one thing: only an object without an `id` goes unanswered. A bare number, text or array
/// is answered with an error, and so is a request that names no method.
pub proof fn only_a_notification_goes_unanswered(value: JsonView, route: Route)
    requires
        is_routed(route, value),
    ensures
        route is Notify || route is Ignored <==> value is Object && json::member(value, "id"@) is None,
        !(value is Object) ==> route is Refused,
{
}

} // verus!
