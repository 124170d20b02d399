use rustmcp::diagnostics::{lifetime_report, DiagnosticsStore, LifetimeReport};
use rustmcp::json::Json;

fn member_list(members: Vec<(&str, Json)>) -> Json {
    Json::Object(members.into_iter().map(|(k, v)| (k.to_string(), v)).collect())
}

fn diag(message: &str) -> Json {
    member_list(vec![("severity", Json::UInt(1)), ("message", Json::Str(message.to_string()))])
}

#[test]
fn store_keeps_latest_per_document() {
    let mut store = DiagnosticsStore::new();
    assert_eq!(store.latest("file:///a.rs"), None);
    store.record("file:///a.rs".to_string(), Json::Array(vec![diag("one")]));
    store.record("file:///b.rs".to_string(), Json::Array(vec![]));
    store.record("file:///a.rs".to_string(), Json::Array(vec![diag("two")]));
    assert_eq!(store.latest("file:///a.rs"), Some(&Json::Array(vec![diag("two")])));
    assert_eq!(store.latest("file:///b.rs"), Some(&Json::Array(vec![])));
}

#[test]
fn store_takes_published_diagnostics_only() {
    let mut store = DiagnosticsStore::new();
    let params = member_list(vec![
        ("uri", Json::Str("file:///a.rs".to_string())),
        ("diagnostics", Json::Array(vec![diag("unused variable")])),
    ]);
    assert!(!store.take_notification("window/logMessage", &params));
    assert_eq!(store.latest("file:///a.rs"), None);
    assert!(store.take_notification("textDocument/publishDiagnostics", &params));
    assert_eq!(store.latest("file:///a.rs"), Some(&Json::Array(vec![diag("unused variable")])));
    assert!(!store.take_notification("textDocument/publishDiagnostics", &Json::Null));
}

#[test]
fn lifetime_report_sorts_messages() {
    let list = Json::Array(vec![
        diag("lifetime may not live long enough"),
        diag("cannot borrow `v` as mutable more than once"),
        diag("mismatched types"),
        diag("Borrowed value does not live long enough, see Lifetime rules"),
        diag("use of moved value: `s`"),
        member_list(vec![("severity", Json::UInt(2))]),
    ]);
    assert_eq!(
        lifetime_report(&list),
        LifetimeReport {
            lifetime: vec![
                "lifetime may not live long enough".to_string(),
                "Borrowed value does not live long enough, see Lifetime rules".to_string(),
            ],
            borrow: vec![
                "cannot borrow `v` as mutable more than once".to_string(),
                "use of moved value: `s`".to_string(),
            ],
        }
    );
    assert_eq!(
        lifetime_report(&Json::Null),
        LifetimeReport { lifetime: vec![], borrow: vec![] }
    );
}
