use rustmcp::actions::{
    action_selected, choose_actions, topic_of, topic_of_lowered, ActionChoice, DiagnosticTopic,
    Refactoring,
};
use rustmcp::client::{ClientError, Delivery, RustAnalyzerClient};
use rustmcp::json::Json;
use rustmcp::message::{notification_message, request_message, Incoming, Reply};
use rustmcp::ops::{lookup_result, rename_result, Call, Lookup, RenameOutcome};
use rustmcp::text::{text_contains, text_eq, text_starts_with};
use rustmcp::{create_person, Person};

fn obj(members: Vec<(&str, Json)>) -> Json {
    Json::Object(members.into_iter().map(|(k, v)| (k.to_string(), v)).collect())
}

fn s(v: &str) -> Json {
    Json::Str(v.to_string())
}

fn started_client() -> RustAnalyzerClient {
    let mut client = RustAnalyzerClient::new();
    client.start("file:///work").unwrap();
    match client.receive(Incoming::Response { id: 1, reply: Reply::Result(obj(vec![])) }) {
        Delivery::Started { .. } => {}
        other => panic!("unexpected {:?}", other),
    }
    client
}

fn position(line: u64, character: u64) -> Json {
    obj(vec![("line", Json::UInt(line)), ("character", Json::UInt(character))])
}

fn did_open(uri: &str, content: &str) -> Json {
    notification_message(
        "textDocument/didOpen",
        obj(vec![(
            "textDocument",
            obj(vec![
                ("uri", s(uri)),
                ("languageId", s("rust")),
                ("version", Json::UInt(1)),
                ("text", s(content)),
            ]),
        )]),
    )
}

#[test]
fn definition_on_new_file_opens_then_asks() {
    let mut client = started_client();
    let call = client.find_definition("/src/lib.rs", 3, 7, Some("pub fn f() {}")).unwrap();
    let request = request_message(
        2,
        "textDocument/definition",
        obj(vec![
            ("textDocument", obj(vec![("uri", s("file:///src/lib.rs"))])),
            ("position", position(3, 7)),
        ]),
    );
    assert_eq!(
        call,
        Call { id: 2, outbound: vec![did_open("file:///src/lib.rs", "pub fn f() {}"), request] }
    );
    let again = client.find_definition("/src/lib.rs", 1, 1, None).unwrap();
    assert_eq!(again.id, 3);
    assert_eq!(again.outbound.len(), 1);
}

#[test]
fn definition_result_outcomes_are_distinct() {
    assert_eq!(lookup_result(Reply::Result(Json::Null)), Ok(Lookup::NotFound));
    assert_eq!(lookup_result(Reply::Result(Json::Array(vec![]))), Ok(Lookup::Empty));
    let loc = obj(vec![("uri", s("file:///src/lib.rs"))]);
    assert_eq!(
        lookup_result(Reply::Result(Json::Array(vec![loc.deep_copy()]))),
        Ok(Lookup::Found(vec![loc.deep_copy()]))
    );
    assert_eq!(lookup_result(Reply::Result(loc.deep_copy())), Ok(Lookup::Found(vec![loc])));
    assert_eq!(
        lookup_result(Reply::Error("content modified".to_string())),
        Err(ClientError::BackendRejected("content modified".to_string()))
    );
}

#[test]
fn unreadable_new_file_fails_without_sending() {
    let mut client = started_client();
    assert_eq!(client.find_references("/missing.rs", 0, 0, None), Err(ClientError::FileAccess));
    assert!(client.needs_open("/missing.rs"));
    let call = client.find_references("/missing.rs", 0, 0, Some("x")).unwrap();
    assert_eq!(call.id, 2);
}

#[test]
fn references_ask_for_declaration() {
    let mut client = started_client();
    let call = client.find_references("/a.rs", 2, 4, Some("")).unwrap();
    let params = call.outbound[1].get("params").unwrap();
    assert_eq!(
        params.get("context"),
        Some(&obj(vec![("includeDeclaration", Json::Bool(true))]))
    );
    assert_eq!(call.outbound[1].get("method"), Some(&s("textDocument/references")));
}

#[test]
fn operations_before_ready_fail() {
    let mut client = RustAnalyzerClient::new();
    assert_eq!(client.find_definition("/a.rs", 0, 0, Some("x")), Err(ClientError::NotReady));
    assert_eq!(client.workspace_symbols("Foo"), Err(ClientError::NotReady));
    assert!(client.needs_open("/a.rs"));
}

#[test]
fn renames_answered_out_of_order() {
    let mut client = started_client();
    let first = client.rename_symbol("/a.rs", 5, 9, "alpha", Some("let x = 1;")).unwrap();
    let second = client.rename_symbol("/a.rs", 5, 9, "beta", Some("let x = 1;")).unwrap();
    assert_ne!(first.id, second.id);
    assert_eq!(first.outbound.len(), 2);
    assert_eq!(second.outbound.len(), 1);
    let first_params = first.outbound[1].get("params").unwrap();
    let second_params = second.outbound[0].get("params").unwrap();
    assert_eq!(first_params.get("newName"), Some(&s("alpha")));
    assert_eq!(second_params.get("newName"), Some(&s("beta")));
    let d2 = client.receive(Incoming::Response { id: second.id, reply: Reply::Result(s("edit-b")) });
    let d1 = client.receive(Incoming::Response { id: first.id, reply: Reply::Result(s("edit-a")) });
    assert_eq!(d2, Delivery::Resolved { id: second.id, reply: Reply::Result(s("edit-b")) });
    assert_eq!(d1, Delivery::Resolved { id: first.id, reply: Reply::Result(s("edit-a")) });
}

#[test]
fn rename_result_counts_changed_files() {
    let edit = obj(vec![(
        "changes",
        obj(vec![("file:///a.rs", Json::Array(vec![])), ("file:///b.rs", Json::Array(vec![]))]),
    )]);
    assert_eq!(
        rename_result(Reply::Result(edit.deep_copy())),
        Ok(RenameOutcome::Edit { changed_files: Some(2), edit })
    );
    assert_eq!(rename_result(Reply::Result(Json::Null)), Ok(RenameOutcome::Refused));
    let other = obj(vec![("documentChanges", Json::Array(vec![]))]);
    assert_eq!(
        rename_result(Reply::Result(other.deep_copy())),
        Ok(RenameOutcome::Edit { changed_files: None, edit: other })
    );
}

#[test]
fn workspace_symbols_needs_no_document() {
    let mut client = started_client();
    let call = client.workspace_symbols("Parser").unwrap();
    assert_eq!(
        call,
        Call {
            id: 2,
            outbound: vec![request_message(
                2,
                "workspace/symbol",
                obj(vec![("query", s("Parser"))])
            )],
        }
    );
}

#[test]
fn formatting_request_shape() {
    let mut client = started_client();
    let call = client.format_code("/a.rs", Some("fn a(){}")).unwrap();
    assert_eq!(
        call.outbound[1].get("params"),
        Some(&obj(vec![
            ("textDocument", obj(vec![("uri", s("file:///a.rs"))])),
            ("options", obj(vec![("tabSize", Json::UInt(4)), ("insertSpaces", Json::Bool(true))])),
        ]))
    );
}

#[test]
fn organize_imports_request_shape() {
    let mut client = started_client();
    let call = client.organize_imports("/a.rs", Some("use b;")).unwrap();
    let params = call.outbound[1].get("params").unwrap();
    assert_eq!(
        params.get("range"),
        Some(&obj(vec![("start", position(0, 0)), ("end", position(0, 0))]))
    );
    assert_eq!(
        params.get("context"),
        Some(&obj(vec![
            ("diagnostics", Json::Array(vec![])),
            ("only", Json::Array(vec![s("source.organizeImports")])),
        ]))
    );
}

#[test]
fn extract_function_request_range() {
    let mut client = started_client();
    let call = client.extract_function("/a.rs", 1, 2, 3, 4, Some("x")).unwrap();
    let params = call.outbound[1].get("params").unwrap();
    assert_eq!(
        params.get("range"),
        Some(&obj(vec![("start", position(1, 2)), ("end", position(3, 4))]))
    );
    assert_eq!(params.get("context"), Some(&obj(vec![("diagnostics", Json::Array(vec![]))])));
}

fn action(title: &str, kind: Option<&str>) -> Json {
    let mut members = vec![("title", s(title))];
    if let Some(k) = kind {
        members.push(("kind", s(k)));
    }
    obj(members)
}

#[test]
fn actions_chosen_by_kind_first() {
    let offered = Json::Array(vec![
        action("Extract into function", Some("refactor.extract.function")),
        action("Extract into variable", Some("refactor.extract.variable")),
        action("Inline variable", Some("refactor.inline")),
    ]);
    assert_eq!(
        choose_actions(Refactoring::ExtractFunction, offered.deep_copy()),
        ActionChoice::Matching(vec![
            action("Extract into function", Some("refactor.extract.function")),
            action("Extract into variable", Some("refactor.extract.variable")),
        ])
    );
    let mislabelled = Json::Array(vec![action("Extract something", Some("quickfix"))]);
    assert_eq!(
        choose_actions(Refactoring::ExtractFunction, mislabelled.deep_copy()),
        ActionChoice::NoMatch(vec![action("Extract something", Some("quickfix"))])
    );
}

#[test]
fn actions_chosen_by_title_in_any_case() {
    let offered = Json::Array(vec![
        action("Add PARAMETER", None),
        action("Convert to guarded return", Some("refactor.rewrite")),
        action("Reorder Arguments", Some("refactor.rewrite")),
    ]);
    assert_eq!(
        choose_actions(Refactoring::ChangeSignature, offered),
        ActionChoice::Matching(vec![
            action("Add PARAMETER", None),
            action("Reorder Arguments", Some("refactor.rewrite")),
        ])
    );
}

#[test]
fn actions_none_available() {
    assert_eq!(choose_actions(Refactoring::InlineFunction, Json::Null), ActionChoice::NoneAvailable);
    assert_eq!(
        choose_actions(Refactoring::InlineFunction, Json::Array(vec![])),
        ActionChoice::NoneAvailable
    );
    assert_eq!(
        choose_actions(Refactoring::InlineFunction, s("odd")),
        ActionChoice::Unexpected(s("odd"))
    );
}

#[test]
fn action_selected_policy() {
    assert!(action_selected(Refactoring::OrganizeImports, Some("source.organizeImports.rust"), None));
    assert!(!action_selected(Refactoring::OrganizeImports, Some("source.fixAll"), Some("organize imports")));
    assert!(action_selected(Refactoring::OrganizeImports, None, Some("sort imports")));
    assert!(action_selected(Refactoring::ChangeSignature, Some("refactor.rewrite"), Some("change signature")));
    assert!(!action_selected(Refactoring::InlineFunction, None, None));
}

#[test]
fn diagnostic_topics() {
    assert_eq!(topic_of("Lifetime may not live long enough"), DiagnosticTopic::Lifetime);
    assert_eq!(topic_of("cannot BORROW `x` as mutable"), DiagnosticTopic::Borrow);
    assert_eq!(topic_of("use of Moved value: `v`"), DiagnosticTopic::Borrow);
    assert_eq!(topic_of("mismatched types"), DiagnosticTopic::Other);
    assert_eq!(topic_of_lowered("Lifetime"), DiagnosticTopic::Other);
}

#[test]
fn text_helpers() {
    assert!(text_eq("abc", "abc"));
    assert!(!text_eq("abc", "abd"));
    assert!(!text_eq("ab", "abc"));
    assert!(text_starts_with("refactor.inline.call", "refactor.inline"));
    assert!(!text_starts_with("refactor", "refactor.inline"));
    assert!(text_contains("cannot borrow", "borrow"));
    assert!(text_contains("x", ""));
    assert!(!text_contains("bor", "borrow"));
}

#[test]
fn person_alice() {
    let p = create_person();
    assert_eq!(p.name, "Alice");
    assert_eq!(p.age, 30);
    let q = Person::new("Bob".to_string(), 41);
    assert_eq!((q.name.as_str(), q.age), ("Bob", 41));
}

#[test]
fn person_greets_by_name() {
    assert_eq!(create_person().greet(), "Hello, my name is Alice");
}

#[test]
fn operations_after_end_fail() {
    let mut client = started_client();
    client.terminate();
    assert_eq!(client.find_definition("/a.rs", 0, 0, Some("x")), Err(ClientError::ConnectionClosed));
    assert_eq!(client.workspace_symbols("Foo"), Err(ClientError::ConnectionClosed));
}

#[test]
fn shutdown_request_shape() {
    let mut client = started_client();
    let call = client.shutdown().unwrap();
    assert_eq!(call, Call { id: 2, outbound: vec![request_message(2, "shutdown", Json::Null)] });
    assert_eq!(RustAnalyzerClient::new().shutdown(), Err(ClientError::NotReady));
}
