use rustmcp::client::{ClientError, Delivery, RustAnalyzerClient, SessionState};
use rustmcp::json::Json;
use rustmcp::message::{classify, notification_message, request_message, Incoming, Reply};

fn object(members: Vec<(&str, Json)>) -> Json {
    Json::Object(members.into_iter().map(|(k, v)| (k.to_string(), v)).collect())
}

fn text(s: &str) -> Json {
    Json::Str(s.to_string())
}

fn response(id: u64, result: Json) -> Incoming {
    Incoming::Response { id, reply: Reply::Result(result) }
}

fn ready_client() -> RustAnalyzerClient {
    let mut client = RustAnalyzerClient::new();
    client.start("file:///work").unwrap();
    match client.receive(response(1, object(vec![]))) {
        Delivery::Started { .. } => {}
        other => panic!("unexpected {:?}", other),
    }
    client
}

#[test]
fn request_message_shape() {
    let m = request_message(7, "workspace/symbol", object(vec![("query", text("Foo"))]));
    assert_eq!(
        m,
        object(vec![
            ("jsonrpc", text("2.0")),
            ("id", Json::UInt(7)),
            ("method", text("workspace/symbol")),
            ("params", object(vec![("query", text("Foo"))])),
        ])
    );
}

#[test]
fn notification_message_shape() {
    let m = notification_message("initialized", object(vec![]));
    assert_eq!(
        m,
        object(vec![
            ("jsonrpc", text("2.0")),
            ("method", text("initialized")),
            ("params", object(vec![])),
        ])
    );
}

#[test]
fn classify_result_response() {
    let m = object(vec![("jsonrpc", text("2.0")), ("id", Json::UInt(4)), ("result", Json::Null)]);
    assert_eq!(classify(&m), Incoming::Response { id: 4, reply: Reply::Result(Json::Null) });
}

#[test]
fn classify_response_without_result_is_null() {
    let m = object(vec![("id", Json::Int(5))]);
    assert_eq!(classify(&m), Incoming::Response { id: 5, reply: Reply::Result(Json::Null) });
}

#[test]
fn classify_error_response_keeps_message() {
    let m = object(vec![
        ("id", Json::UInt(3)),
        ("error", object(vec![("code", Json::Int(-32601)), ("message", text("Method not found"))])),
    ]);
    assert_eq!(
        classify(&m),
        Incoming::Response { id: 3, reply: Reply::Error("Method not found".to_string()) }
    );
}

#[test]
fn classify_notification() {
    let m = object(vec![
        ("method", text("textDocument/publishDiagnostics")),
        ("params", object(vec![("uri", text("file:///a.rs"))])),
    ]);
    assert_eq!(
        classify(&m),
        Incoming::Notification {
            method: "textDocument/publishDiagnostics".to_string(),
            params: object(vec![("uri", text("file:///a.rs"))]),
        }
    );
}

#[test]
fn classify_unrecognized() {
    assert_eq!(classify(&Json::Array(vec![])), Incoming::Unrecognized);
    assert_eq!(classify(&object(vec![("id", Json::Int(-1))])), Incoming::Unrecognized);
    assert_eq!(classify(&object(vec![("id", text("x"))])), Incoming::Unrecognized);
}

#[test]
fn json_get_takes_first_member() {
    let m = object(vec![("a", Json::UInt(1)), ("a", Json::UInt(2))]);
    assert_eq!(m.get("a"), Some(&Json::UInt(1)));
    assert_eq!(m.get("b"), None);
    assert_eq!(Json::Null.get("a"), None);
}

#[test]
fn json_deep_copy_is_equal() {
    let m = object(vec![("a", Json::Array(vec![Json::Bool(true), Json::Decimal("1.5".to_string())]))]);
    assert_eq!(m.deep_copy(), m);
}

#[test]
fn request_before_start_is_not_ready() {
    let mut client = RustAnalyzerClient::new();
    assert_eq!(client.state(), SessionState::Unstarted);
    assert_eq!(client.send_request("workspace/symbol", Json::Null), Err(ClientError::NotReady));
    assert_eq!(client.state(), SessionState::Unstarted);
}

#[test]
fn request_while_initializing_is_not_ready() {
    let mut client = RustAnalyzerClient::new();
    client.start("file:///work").unwrap();
    assert_eq!(client.state(), SessionState::Initializing);
    assert_eq!(client.send_request("workspace/symbol", Json::Null), Err(ClientError::NotReady));
}

#[test]
fn start_sends_initialize_with_id_one() {
    let mut client = RustAnalyzerClient::new();
    let m = client.start("file:///work").unwrap();
    assert_eq!(m.get("id"), Some(&Json::UInt(1)));
    assert_eq!(m.get("method"), Some(&text("initialize")));
    let params = m.get("params").unwrap();
    assert_eq!(params.get("rootUri"), Some(&text("file:///work")));
    assert_eq!(params.get("processId"), Some(&Json::Null));
    assert!(client.is_pending(1));
    assert_eq!(client.start("file:///work"), Err(ClientError::AlreadyStarted));
}

#[test]
fn handshake_completes_with_initialized_notification() {
    let mut client = RustAnalyzerClient::new();
    client.start("file:///work").unwrap();
    let d = client.receive(response(1, object(vec![("capabilities", object(vec![]))])));
    assert_eq!(
        d,
        Delivery::Started { notification: notification_message("initialized", object(vec![])) }
    );
    assert_eq!(client.state(), SessionState::Ready);
    assert!(!client.is_pending(1));
}

#[test]
fn rejected_handshake_ends_session() {
    let mut client = RustAnalyzerClient::new();
    client.start("file:///work").unwrap();
    let d = client.receive(Incoming::Response { id: 1, reply: Reply::Error("bad root".to_string()) });
    assert_eq!(d, Delivery::StartFailed { message: "bad root".to_string() });
    assert_eq!(client.state(), SessionState::Terminated);
    assert_eq!(client.send_request("x", Json::Null), Err(ClientError::ConnectionClosed));
}

#[test]
fn request_ids_increase_from_two() {
    let mut client = ready_client();
    let (a, _) = client.send_request("a", Json::Null).unwrap();
    let (b, _) = client.send_request("b", Json::Null).unwrap();
    let (c, _) = client.send_request("c", Json::Null).unwrap();
    assert_eq!((a, b, c), (2, 3, 4));
    assert!(client.is_pending(2) && client.is_pending(3) && client.is_pending(4));
}

#[test]
fn concurrent_responses_reach_their_callers() {
    let mut client = ready_client();
    let mut ids = Vec::new();
    for i in 0..5u64 {
        let (id, _) = client.send_request("m", Json::UInt(i)).unwrap();
        ids.push(id);
    }
    for &id in ids.iter().rev() {
        let d = client.receive(response(id, Json::UInt(id * 10)));
        assert_eq!(d, Delivery::Resolved { id, reply: Reply::Result(Json::UInt(id * 10)) });
        assert!(!client.is_pending(id));
    }
}

#[test]
fn unmatched_response_is_discarded() {
    let mut client = ready_client();
    let (id, _) = client.send_request("m", Json::Null).unwrap();
    assert_eq!(client.receive(response(id + 100, Json::Null)), Delivery::Discarded);
    assert!(client.is_pending(id));
    assert_eq!(client.receive(Incoming::Unrecognized), Delivery::Discarded);
}

#[test]
fn notification_is_routed() {
    let mut client = ready_client();
    let d = client.receive(Incoming::Notification { method: "window/logMessage".to_string(), params: Json::Null });
    assert_eq!(d, Delivery::Notification { method: "window/logMessage".to_string(), params: Json::Null });
}

#[test]
fn cancelled_request_drops_late_response() {
    let mut client = ready_client();
    let (id, _) = client.send_request("m", Json::Null).unwrap();
    client.cancel(id);
    assert!(!client.is_pending(id));
    assert_eq!(client.receive(response(id, Json::Null)), Delivery::Discarded);
}

#[test]
fn backend_exit_releases_all_pending() {
    let mut client = ready_client();
    let mut ids = Vec::new();
    for _ in 0..3 {
        ids.push(client.send_request("m", Json::Null).unwrap().0);
    }
    let mut orphans = client.terminate();
    orphans.sort();
    assert_eq!(orphans, ids);
    assert_eq!(client.state(), SessionState::Terminated);
    for id in ids {
        assert!(!client.is_pending(id));
        assert_eq!(client.receive(response(id, Json::Null)), Delivery::Discarded);
    }
    assert_eq!(client.send_request("m", Json::Null), Err(ClientError::ConnectionClosed));
}

#[test]
fn document_opened_once() {
    let mut client = ready_client();
    assert!(client.needs_open("/src/a.rs"));
    let first = client.open_document("/src/a.rs", "fn main() {}").unwrap();
    let expected = notification_message(
        "textDocument/didOpen",
        object(vec![(
            "textDocument",
            object(vec![
                ("uri", text("file:///src/a.rs")),
                ("languageId", text("rust")),
                ("version", Json::UInt(1)),
                ("text", text("fn main() {}")),
            ]),
        )]),
    );
    assert_eq!(first, Some(expected));
    for _ in 0..4 {
        assert_eq!(client.open_document("/src/a.rs", "changed"), Ok(None));
    }
    assert!(!client.needs_open("/src/a.rs"));
    assert!(client.needs_open("/src/b.rs"));
}

#[test]
fn open_document_before_ready_fails() {
    let mut client = RustAnalyzerClient::new();
    assert_eq!(client.open_document("/a.rs", "x"), Err(ClientError::NotReady));
}

#[test]
fn send_notification_needs_ready() {
    let client = RustAnalyzerClient::new();
    assert_eq!(client.send_notification("x", Json::Null), Err(ClientError::NotReady));
    let ready = ready_client();
    assert_eq!(ready.send_notification("x", Json::Null), Ok(notification_message("x", Json::Null)));
}
