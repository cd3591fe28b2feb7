use lsp_gateway::adapter::{
    Adapter, AdapterEvent, interpret_child_response, default_capabilities, empty_completion,
};
use lsp_gateway::pending::PendingEntry;
use lsp_gateway::json::JsonValue;

fn obj(pairs: Vec<(&str, JsonValue)>) -> JsonValue {
    JsonValue::Obj(pairs.into_iter().map(|(k, v)| (k.to_string(), v)).collect())
}

fn did_open_params(uri: &str, text: &str) -> JsonValue {
    obj(vec![(
        "textDocument",
        obj(vec![
            ("uri", JsonValue::Str(uri.to_string())),
            ("languageId", JsonValue::Str("rust".to_string())),
            ("text", JsonValue::Str(text.to_string())),
        ]),
    )])
}

#[test]
fn document_lifecycle_stores_and_removes_content() {
    let mut a = Adapter::new("rust".to_string(), "/proj").expect("adapter");
    let uri = "file:///proj/src/main.rs";

    // didOpen stores the full text.
    let note = a.did_open(did_open_params(uri, "fn main() {}"));
    assert!(note.is_some());
    assert_eq!(a.doc_content(uri), Some(&"fn main() {}".to_string()));

    // A full-text didChange replaces it with the last change's text.
    let change = obj(vec![
        ("textDocument", obj(vec![("uri", JsonValue::Str(uri.to_string()))])),
        (
            "contentChanges",
            JsonValue::Arr(vec![
                obj(vec![("text", JsonValue::Str("old".to_string()))]),
                obj(vec![("text", JsonValue::Str("fn main() { println!(); }".to_string()))]),
            ]),
        ),
    ]);
    let note2 = a.did_change(change);
    assert!(note2.is_some());
    assert_eq!(a.doc_content(uri), Some(&"fn main() { println!(); }".to_string()));

    // didClose removes the entry.
    let close = obj(vec![(
        "textDocument",
        obj(vec![("uri", JsonValue::Str(uri.to_string()))]),
    )]);
    let note3 = a.did_close(close);
    assert!(note3.is_some());
    assert_eq!(a.doc_content(uri), None);
}

#[test]
fn did_open_without_required_fields_is_dropped() {
    let mut a = Adapter::new("rust".to_string(), "/proj").expect("adapter");
    let bad = obj(vec![(
        "textDocument",
        obj(vec![("uri", JsonValue::Str("file:///x.rs".to_string()))]),
    )]);
    assert!(a.did_open(bad).is_none());
    assert_eq!(a.doc_content("file:///x.rs"), None);
}

#[test]
fn initialize_request_rewrites_root_uri() {
    let mut a = Adapter::new("rust".to_string(), "/proj").expect("adapter");
    let params = obj(vec![
        ("rootUri", JsonValue::Str("file:///somewhere/else".to_string())),
        ("processId", JsonValue::Int(1)),
    ]);
    let env = a.initialize_request(params, JsonValue::Int(5));
    let sent = env.get("params").expect("params");
    match sent.get("rootUri") {
        Some(JsonValue::Str(u)) => assert_eq!(u, &"file:///proj".to_string()),
        other => panic!("unexpected rootUri {:?}", other),
    }
    // Other params members are untouched.
    assert_eq!(sent.get("processId"), Some(&JsonValue::Int(1)));
}

#[test]
fn null_hover_result_is_an_empty_answer_not_an_error() {
    // A JSON null result from the child yields a result member, no error.
    for method in ["textDocument/hover", "textDocument/definition", "textDocument/references",
        "textDocument/formatting"] {
        let entry = PendingEntry { client_id: JsonValue::Int(3), method: method.to_string() };
        let payload = obj(vec![
            ("jsonrpc", JsonValue::Str("2.0".to_string())),
            ("id", JsonValue::Int(1)),
            ("result", JsonValue::Null),
        ]);
        let reply = interpret_child_response(entry, payload);
        assert_eq!(reply.get("id"), Some(&JsonValue::Int(3)));
        assert_eq!(reply.get("result"), Some(&JsonValue::Null));
        assert!(reply.get("error").is_none());
    }
}

#[test]
fn null_completion_result_becomes_empty_list() {
    let entry = PendingEntry {
        client_id: JsonValue::Int(8),
        method: "textDocument/completion".to_string(),
    };
    let payload = obj(vec![("id", JsonValue::Int(1)), ("result", JsonValue::Null)]);
    let reply = interpret_child_response(entry, payload);
    assert!(reply.get("error").is_none());
    let result = reply.get("result").expect("result");
    assert_eq!(result.get("isIncomplete"), Some(&JsonValue::Bool(false)));
    match result.get("items") {
        Some(JsonValue::Arr(items)) => assert_eq!(items.len(), 0),
        other => panic!("unexpected items {:?}", other),
    }
}

#[test]
fn malformed_initialize_result_degrades_to_default_capabilities() {
    let entry = PendingEntry { client_id: JsonValue::Int(2), method: "initialize".to_string() };
    // The child's result has no capabilities member.
    let payload = obj(vec![("id", JsonValue::Int(1)), ("result", JsonValue::Null)]);
    let reply = interpret_child_response(entry, payload);
    assert!(reply.get("error").is_none());
    let result = reply.get("result").expect("result");
    let caps = result.get("capabilities").expect("capabilities");
    assert_eq!(caps.get("hoverProvider"), Some(&JsonValue::Bool(true)));
    assert_eq!(caps.get("textDocumentSync"), Some(&JsonValue::Int(2)));
    assert_eq!(caps.get("renameProvider"), Some(&JsonValue::Bool(true)));
}

#[test]
fn well_formed_initialize_result_passes_through() {
    let entry = PendingEntry { client_id: JsonValue::Int(2), method: "initialize".to_string() };
    let caps = obj(vec![("hoverProvider", JsonValue::Bool(false))]);
    let payload = obj(vec![("id", JsonValue::Int(1)), ("result", obj(vec![("capabilities", caps)]))]);
    let reply = interpret_child_response(entry, payload);
    let result = reply.get("result").expect("result");
    let got = result.get("capabilities").expect("capabilities");
    assert_eq!(got.get("hoverProvider"), Some(&JsonValue::Bool(false)));
}

#[test]
fn child_error_on_initialize_is_surfaced() {
    let entry = PendingEntry { client_id: JsonValue::Int(2), method: "initialize".to_string() };
    let err = obj(vec![("code", JsonValue::Int(-32000)), ("message", JsonValue::Str("boom".to_string()))]);
    let payload = obj(vec![("id", JsonValue::Int(1)), ("error", err)]);
    let reply = interpret_child_response(entry, payload);
    let code = reply.get("error").and_then(|e| e.get("code"));
    assert_eq!(code, Some(&JsonValue::Int(-32603)));
}

#[test]
fn shutdown_is_idempotent_and_kills_running_child() {
    let mut a = Adapter::new("rust".to_string(), "/proj").expect("adapter");
    a.begin_session();
    assert!(a.is_running());
    let plan = a.shutdown();
    assert!(plan.kill);
    assert_eq!(plan.messages.len(), 2);
    assert_eq!(
        plan.messages[0].get("method"),
        Some(&JsonValue::Str("shutdown".to_string()))
    );
    assert_eq!(plan.messages[1].get("method"), Some(&JsonValue::Str("exit".to_string())));
    // A second shutdown is a no-op.
    let plan2 = a.shutdown();
    assert!(!plan2.kill);
    assert_eq!(plan2.messages.len(), 0);
}

#[test]
fn diagnostics_notification_updates_store_and_republishes() {
    let mut a = Adapter::new("rust".to_string(), "/proj").expect("adapter");
    let uri = "file:///proj/src/main.rs";
    let diag = obj(vec![("message", JsonValue::Str("unused variable".to_string()))]);
    let payload = obj(vec![
        ("jsonrpc", JsonValue::Str("2.0".to_string())),
        ("method", JsonValue::Str("textDocument/publishDiagnostics".to_string())),
        (
            "params",
            obj(vec![
                ("uri", JsonValue::Str(uri.to_string())),
                ("diagnostics", JsonValue::Arr(vec![diag])),
            ]),
        ),
    ]);
    match a.on_child_payload(payload) {
        AdapterEvent::Publish { uri: got_uri, params } => {
            assert_eq!(got_uri, uri.to_string());
            // The re-published payload is the notification unchanged.
            assert_eq!(
                params.get("method"),
                Some(&JsonValue::Str("textDocument/publishDiagnostics".to_string()))
            );
        }
        _ => panic!("expected publish event"),
    }
    // The entry now exists even though the document was never opened.
    assert_eq!(a.doc_content(uri), Some(&String::new()));
}

#[test]
fn unknown_child_notification_is_dropped() {
    let mut a = Adapter::new("rust".to_string(), "/proj").expect("adapter");
    let payload = obj(vec![
        ("method", JsonValue::Str("window/logMessage".to_string())),
        ("params", JsonValue::Null),
    ]);
    match a.on_child_payload(payload) {
        AdapterEvent::Nothing => {}
        _ => panic!("expected nothing"),
    }
}

#[test]
fn default_capability_builders() {
    let caps = default_capabilities();
    assert_eq!(caps.get("definitionProvider"), Some(&JsonValue::Bool(true)));
    assert_eq!(caps.get("documentFormattingProvider"), Some(&JsonValue::Bool(true)));
    let empty = empty_completion();
    assert_eq!(empty.get("isIncomplete"), Some(&JsonValue::Bool(false)));
}
