//! JSON-RPC 2.0 messages: building requests and notifications, and telling
//! apart what the backend sends.
use vstd::prelude::*;

use crate::json::{field, Json, JsonValue};

verus! {

/// A string value.
pub open spec fn text(s: Seq<char>) -> JsonValue {
    JsonValue::Str(s)
}

/// The request with identifier `id` for `method`.
pub open spec fn request_value(id: u64, method: Seq<char>, params: JsonValue) -> JsonValue {
    JsonValue::Object(
        seq!["jsonrpc"@, "id"@, "method"@, "params"@],
        seq![text("2.0"@), JsonValue::Num(id as int), text(method), params],
    )
}

/// The notification for `method`.
pub open spec fn notification_value(method: Seq<char>, params: JsonValue) -> JsonValue {
    JsonValue::Object(
        seq!["jsonrpc"@, "method"@, "params"@],
        seq![text("2.0"@), text(method), params],
    )
}

/// A string document holding `s`.
pub fn json_text(s: &str) -> (r: Json)
    ensures
        r@ == text(s@),
{
    Json::Str(String::from_str(s))
}

/// The request with identifier `id` for `method`.
pub fn request_message(id: u64, method: &str, params: Json) -> (r: Json)
    ensures
        r@ == request_value(id, method@, params@),
{
    let ghost p = params@;
    let mut members: Vec<(String, Json)> = Vec::new();
    members.push((String::from_str("jsonrpc"), json_text("2.0")));
    let idv = Json::UInt(id);
    assert(idv@ == JsonValue::Num(id as int));
    members.push((String::from_str("id"), idv));
    members.push((String::from_str("method"), json_text(method)));
    members.push((String::from_str("params"), params));
    let r = Json::Object(members);
    assert(r@->Object_0 =~= seq!["jsonrpc"@, "id"@, "method"@, "params"@]);
    assert(r@->Object_1 =~= seq![text("2.0"@), JsonValue::Num(id as int), text(method@), p]);
    r
}

/// The notification for `method`.
pub fn notification_message(method: &str, params: Json) -> (r: Json)
    ensures
        r@ == notification_value(method@, params@),
{
    let ghost p = params@;
    let mut members: Vec<(String, Json)> = Vec::new();
    members.push((String::from_str("jsonrpc"), json_text("2.0")));
    members.push((String::from_str("method"), json_text(method)));
    members.push((String::from_str("params"), params));
    let r = Json::Object(members);
    assert(r@->Object_0 =~= seq!["jsonrpc"@, "method"@, "params"@]);
    assert(r@->Object_1 =~= seq![text("2.0"@), text(method@), p]);
    r
}

/// What a response carries: a result, or an error with the backend's
/// message.
#[derive(Debug, PartialEq)]
pub enum Reply {
    Result(Json),
    Error(String),
}

pub ghost enum ReplyValue {
    Result(JsonValue),
    Error(Seq<char>),
}

impl View for Reply {
    type V = ReplyValue;

    open spec fn view(&self) -> ReplyValue {
        match self {
            Reply::Result(j) => ReplyValue::Result(j@),
            Reply::Error(m) => ReplyValue::Error(m@),
        }
    }
}

/// A message from the backend, by kind.
#[derive(Debug, PartialEq)]
pub enum Incoming {
    /// The answer to the request with identifier `id`.
    Response { id: u64, reply: Reply },
    /// A message that names a method: a notification, or a request that the
    /// backend pushes.
    Notification { method: String, params: Json },
    /// Anything else.
    Unrecognized,
}

pub ghost enum IncomingValue {
    Response { id: u64, reply: ReplyValue },
    Notification { method: Seq<char>, params: JsonValue },
    Unrecognized,
}

impl View for Incoming {
    type V = IncomingValue;

    open spec fn view(&self) -> IncomingValue {
        match self {
            Incoming::Response { id, reply } => IncomingValue::Response { id: *id, reply: reply@ },
            Incoming::Notification { method, params } => IncomingValue::Notification {
                method: method@,
                params: params@,
            },
            Incoming::Unrecognized => IncomingValue::Unrecognized,
        }
    }
}

/// The backend's message in an error value: its `message` member if that
/// is a string, else empty.
pub open spec fn error_message(e: JsonValue) -> Seq<char> {
    match field(e, "message"@) {
        Some(JsonValue::Str(m)) => m,
        _ => Seq::empty(),
    }
}

/// What kind of message `v` is.
///
/// A message with a string `method` is a notification (its `params`, or
/// null). Otherwise one whose `id` is a number in the range of `u64` is a
/// response: an error if it has an `error` member, else its `result` (or
/// null). Anything else is unrecognized.
pub open spec fn incoming_spec(v: JsonValue) -> IncomingValue {
    match field(v, "method"@) {
        Some(JsonValue::Str(m)) => IncomingValue::Notification {
            method: m,
            params: match field(v, "params"@) {
                Some(p) => p,
                None => JsonValue::Null,
            },
        },
        _ => match field(v, "id"@) {
            Some(JsonValue::Num(n)) => if 0 <= n <= u64::MAX {
                IncomingValue::Response {
                    id: n as u64,
                    reply: match field(v, "error"@) {
                        Some(e) => ReplyValue::Error(error_message(e)),
                        None => ReplyValue::Result(
                            match field(v, "result"@) {
                                Some(r) => r,
                                None => JsonValue::Null,
                            },
                        ),
                    },
                }
            } else {
                IncomingValue::Unrecognized
            },
            _ => IncomingValue::Unrecognized,
        },
    }
}

/// Tells what kind of message `msg` is, as [`incoming_spec`] says.
pub fn classify(msg: &Json) -> (r: Incoming)
    ensures
        r@ == incoming_spec(msg@),
{
    if let Some(Json::Str(m)) = msg.get("method") {
        let params = match msg.get("params") {
            Some(p) => p.deep_copy(),
            None => Json::Null,
        };
        return Incoming::Notification { method: m.clone(), params };
    }
    let id: u64 = match msg.get("id") {
        Some(Json::UInt(n)) => *n,
        Some(Json::Int(n)) => {
            if *n < 0 {
                return Incoming::Unrecognized;
            }
            *n as u64
        },
        _ => {
            return Incoming::Unrecognized;
        },
    };
    let reply = match msg.get("error") {
        Some(e) => {
            let message = match e.get("message") {
                Some(Json::Str(m)) => m.clone(),
                _ => String::new(),
            };
            Reply::Error(message)
        },
        None => match msg.get("result") {
            Some(r) => Reply::Result(r.deep_copy()),
            None => Reply::Result(Json::Null),
        },
    };
    Incoming::Response { id, reply }
}

} // verus!
