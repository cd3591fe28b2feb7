use lsp_gateway::gateway::WebSocketManager;
use lsp_gateway::fsio::MemFs;
use lsp_gateway::json::JsonValue;

fn obj(pairs: Vec<(&str, JsonValue)>) -> JsonValue {
    JsonValue::Obj(pairs.into_iter().map(|(k, v)| (k.to_string(), v)).collect())
}

fn error_code(reply: &JsonValue) -> Option<i64> {
    match reply.get("error").and_then(|e| e.get("code")) {
        Some(JsonValue::Int(c)) => Some(*c),
        _ => None,
    }
}

fn cargo_project() -> MemFs {
    let mut fs = MemFs::new();
    fs.add_dir("/".to_string());
    fs.add_dir("/proj".to_string());
    fs.add_file("/proj/Cargo.toml".to_string());
    fs
}

fn initialize_envelope(language: Option<&str>, root_uri: &str) -> JsonValue {
    let mut params = vec![("rootUri", JsonValue::Str(root_uri.to_string()))];
    if let Some(lang) = language {
        params.push((
            "initializationOptions",
            obj(vec![("language", JsonValue::Str(lang.to_string()))]),
        ));
    }
    obj(vec![
        ("jsonrpc", JsonValue::Str("2.0".to_string())),
        ("id", JsonValue::Int(1)),
        ("method", JsonValue::Str("initialize".to_string())),
        ("params", obj(params)),
    ])
}

#[test]
fn malformed_json_text_gets_parse_error() {
    let mut gw = WebSocketManager::new();
    let fs = cargo_project();
    let mut active: Option<String> = None;
    let out = gw.handle_text(&fs, &mut active, "{not json");
    let reply = out.reply.expect("reply");
    assert_eq!(error_code(&reply), Some(-32700));
}

#[test]
fn non_object_envelope_is_invalid_request() {
    let mut gw = WebSocketManager::new();
    let fs = cargo_project();
    let mut active: Option<String> = None;
    let out = gw.handle_text(&fs, &mut active, "[1,2,3]");
    let reply = out.reply.expect("reply");
    assert_eq!(error_code(&reply), Some(-32600));
}

#[test]
fn missing_jsonrpc_version_is_invalid_request() {
    let mut gw = WebSocketManager::new();
    let fs = cargo_project();
    let mut active: Option<String> = None;
    let env = obj(vec![
        ("id", JsonValue::Int(1)),
        ("method", JsonValue::Str("initialize".to_string())),
    ]);
    let out = gw.handle_envelope(&fs, &mut active, env);
    let reply = out.reply.expect("reply");
    assert_eq!(error_code(&reply), Some(-32600));
}

#[test]
fn wrong_jsonrpc_version_is_invalid_request() {
    let mut gw = WebSocketManager::new();
    let fs = cargo_project();
    let mut active: Option<String> = None;
    let env = obj(vec![
        ("jsonrpc", JsonValue::Str("1.0".to_string())),
        ("id", JsonValue::Int(1)),
        ("method", JsonValue::Str("x".to_string())),
    ]);
    let out = gw.handle_envelope(&fs, &mut active, env);
    assert_eq!(error_code(&out.reply.expect("reply")), Some(-32600));
}

#[test]
fn unsupported_language_gets_32601_listing_supported() {
    // An unsupported language is refused with code -32601, the message
    // names the supported languages, and no server entry is created.
    let mut gw = WebSocketManager::new();
    let fs = cargo_project();
    let mut active: Option<String> = None;
    let env = initialize_envelope(Some("cobol"), "file:///proj");
    let out = gw.handle_envelope(&fs, &mut active, env);
    let reply = out.reply.expect("reply");
    assert_eq!(error_code(&reply), Some(-32601));
    match reply.get("error").and_then(|e| e.get("message")) {
        Some(JsonValue::Str(m)) => {
            assert_eq!(
                m,
                &"Language 'cobol' is not supported. Currently supported languages are: rust"
                    .to_string()
            );
        }
        other => panic!("unexpected message {:?}", other),
    }
    assert!(active.is_none());
    assert!(out.spawn.is_none());
    assert_eq!(out.child_messages.len(), 0);
}

#[test]
fn unknown_language_in_cargo_directory_resolves_to_rust() {
    // Language "unknown" against a directory holding only a Cargo.toml:
    // detection lands on rust, and the corrected initialize carries the
    // directory itself as the project root.
    let mut gw = WebSocketManager::new();
    let fs = cargo_project();
    let mut active: Option<String> = None;
    let env = initialize_envelope(Some("unknown"), "file:///proj");
    let out = gw.handle_envelope(&fs, &mut active, env);
    assert!(out.reply.is_none(), "initialize awaits the child's reply");
    assert!(active.is_some(), "a session was created");
    let spawn = out.spawn.expect("child spawn");
    assert_eq!(spawn.root_path, "/proj".to_string());
    assert_eq!(spawn.executable_path, Some("rust-analyzer".to_string()));
    assert_eq!(out.child_messages.len(), 1);
    let init = &out.child_messages[0];
    assert_eq!(init.get("method"), Some(&JsonValue::Str("initialize".to_string())));
    let params = init.get("params").expect("params");
    assert_eq!(params.get("rootUri"), Some(&JsonValue::Str("file:///proj".to_string())));
    assert_eq!(params.get("rootPath"), Some(&JsonValue::Str("/proj".to_string())));
    let opts = params.get("initializationOptions").expect("options");
    assert_eq!(opts.get("language"), Some(&JsonValue::Str("rust".to_string())));
}

#[test]
fn root_correction_walks_up_from_a_file() {
    let mut fs = cargo_project();
    fs.add_dir("/proj/src".to_string());
    fs.add_file("/proj/src/main.rs".to_string());
    let mut gw = WebSocketManager::new();
    let mut active: Option<String> = None;
    let env = initialize_envelope(Some("rust"), "file:///proj/src/main.rs");
    let out = gw.handle_envelope(&fs, &mut active, env);
    assert!(active.is_some());
    let init = &out.child_messages[0];
    let params = init.get("params").expect("params");
    assert_eq!(params.get("rootUri"), Some(&JsonValue::Str("file:///proj".to_string())));
}

#[test]
fn nonexistent_path_creates_nothing_and_reports_internal_error() {
    // No process is spawned and no server entry is created for a path
    // that does not exist.
    let mut gw = WebSocketManager::new();
    let fs = cargo_project();
    let mut active: Option<String> = None;
    let env = initialize_envelope(Some("rust"), "file:///missing");
    let out = gw.handle_envelope(&fs, &mut active, env);
    let reply = out.reply.expect("reply");
    assert_eq!(error_code(&reply), Some(-32603));
    assert!(out.spawn.is_none());
    assert!(active.is_none());
}

#[test]
fn request_without_session_gets_internal_error() {
    let mut gw = WebSocketManager::new();
    let fs = cargo_project();
    let mut active: Option<String> = None;
    let env = obj(vec![
        ("jsonrpc", JsonValue::Str("2.0".to_string())),
        ("id", JsonValue::Int(9)),
        ("method", JsonValue::Str("textDocument/hover".to_string())),
        ("params", obj(vec![])),
    ]);
    let out = gw.handle_envelope(&fs, &mut active, env);
    let reply = out.reply.expect("reply");
    assert_eq!(error_code(&reply), Some(-32603));
    assert_eq!(reply.get("id"), Some(&JsonValue::Int(9)));
}

#[test]
fn notification_without_session_is_dropped_silently() {
    let mut gw = WebSocketManager::new();
    let fs = cargo_project();
    let mut active: Option<String> = None;
    let env = obj(vec![
        ("jsonrpc", JsonValue::Str("2.0".to_string())),
        ("method", JsonValue::Str("textDocument/didSave".to_string())),
        ("params", obj(vec![])),
    ]);
    let out = gw.handle_envelope(&fs, &mut active, env);
    assert!(out.reply.is_none());
    assert_eq!(out.child_messages.len(), 0);
}

#[test]
fn forwarded_request_reaches_session_child() {
    let mut gw = WebSocketManager::new();
    let fs = cargo_project();
    let mut active: Option<String> = None;
    let env = initialize_envelope(Some("rust"), "file:///proj");
    let _ = gw.handle_envelope(&fs, &mut active, env);
    assert!(active.is_some());
    let hover = obj(vec![
        ("jsonrpc", JsonValue::Str("2.0".to_string())),
        ("id", JsonValue::Int(2)),
        ("method", JsonValue::Str("textDocument/hover".to_string())),
        ("params", obj(vec![("position", JsonValue::Int(0))])),
    ]);
    let out = gw.handle_envelope(&fs, &mut active, hover);
    assert!(out.reply.is_none(), "hover awaits the child's reply");
    assert_eq!(out.child_messages.len(), 1);
    assert_eq!(
        out.child_messages[0].get("method"),
        Some(&JsonValue::Str("textDocument/hover".to_string()))
    );
}

#[test]
fn unhandled_method_is_transparently_forwarded() {
    // A method without first-class handling is forwarded to the child,
    // not answered locally.
    let mut gw = WebSocketManager::new();
    let fs = cargo_project();
    let mut active: Option<String> = None;
    let env = initialize_envelope(Some("rust"), "file:///proj");
    let _ = gw.handle_envelope(&fs, &mut active, env);
    let rename = obj(vec![
        ("jsonrpc", JsonValue::Str("2.0".to_string())),
        ("id", JsonValue::Int(3)),
        ("method", JsonValue::Str("textDocument/rename".to_string())),
        ("params", obj(vec![])),
    ]);
    let out = gw.handle_envelope(&fs, &mut active, rename);
    assert!(out.reply.is_none(), "the answer comes from the child");
    assert_eq!(out.child_messages.len(), 1);
    assert_eq!(
        out.child_messages[0].get("method"),
        Some(&JsonValue::Str("textDocument/rename".to_string()))
    );
}

#[test]
fn did_change_is_forwarded_and_updates_the_document() {
    let mut gw = WebSocketManager::new();
    let fs = cargo_project();
    let mut active: Option<String> = None;
    let env = initialize_envelope(Some("rust"), "file:///proj");
    let _ = gw.handle_envelope(&fs, &mut active, env);
    let change = obj(vec![
        ("jsonrpc", JsonValue::Str("2.0".to_string())),
        ("method", JsonValue::Str("textDocument/didChange".to_string())),
        (
            "params",
            obj(vec![
                (
                    "textDocument",
                    obj(vec![("uri", JsonValue::Str("file:///proj/a.rs".to_string()))]),
                ),
                (
                    "contentChanges",
                    JsonValue::Arr(vec![obj(vec![(
                        "text",
                        JsonValue::Str("fn a() {}".to_string()),
                    )])]),
                ),
            ]),
        ),
    ]);
    let out = gw.handle_envelope(&fs, &mut active, change);
    assert!(out.reply.is_none());
    assert_eq!(out.child_messages.len(), 1);
    assert_eq!(
        out.child_messages[0].get("method"),
        Some(&JsonValue::Str("textDocument/didChange".to_string()))
    );
}

#[test]
fn disconnect_tears_down_active_session_child() {
    // Closing a connection with an active session kills that session's
    // child process: the shutdown plan demands the kill.
    let mut gw = WebSocketManager::new();
    let fs = cargo_project();
    let mut active: Option<String> = None;
    let env = initialize_envelope(Some("rust"), "file:///proj");
    let out = gw.handle_envelope(&fs, &mut active, env);
    assert!(out.spawn.is_some(), "the session spawned a child");
    let plan = gw.on_disconnect(&mut active).expect("shutdown plan");
    assert!(plan.kill, "the child process is terminated");
    assert!(active.is_none());
    // A second disconnect finds nothing to tear down.
    assert!(gw.on_disconnect(&mut active).is_none());
}

#[test]
fn did_open_with_generic_language_creates_detected_session() {
    let mut fs = cargo_project();
    fs.add_dir("/proj/src".to_string());
    fs.add_file("/proj/src/main.rs".to_string());
    let mut gw = WebSocketManager::new();
    let mut active: Option<String> = None;
    let env = obj(vec![
        ("jsonrpc", JsonValue::Str("2.0".to_string())),
        ("method", JsonValue::Str("textDocument/didOpen".to_string())),
        (
            "params",
            obj(vec![(
                "textDocument",
                obj(vec![
                    ("uri", JsonValue::Str("file:///proj/src/main.rs".to_string())),
                    ("languageId", JsonValue::Str("plaintext".to_string())),
                    ("text", JsonValue::Str("fn main() {}".to_string())),
                ]),
            )]),
        ),
    ]);
    let out = gw.handle_envelope(&fs, &mut active, env);
    assert!(out.reply.is_none());
    assert!(active.is_some(), "a session was created for the detected language");
    assert_eq!(out.child_messages.len(), 1);
    let fwd = &out.child_messages[0];
    let td = fwd.get("params").and_then(|p| p.get("textDocument")).expect("textDocument");
    assert_eq!(td.get("languageId"), Some(&JsonValue::Str("rust".to_string())));
}

#[test]
fn client_registry_drains_on_stop() {
    let mut gw = WebSocketManager::new();
    gw.client_connected(10);
    gw.client_connected(11);
    let closed = gw.stop_server();
    assert_eq!(closed, vec![10, 11]);
    assert_eq!(gw.stop_server(), Vec::<u64>::new());
}

#[test]
fn child_exit_fails_pending_requests() {
    let mut gw = WebSocketManager::new();
    let fs = cargo_project();
    let mut active: Option<String> = None;
    let env = initialize_envelope(Some("rust"), "file:///proj");
    let _ = gw.handle_envelope(&fs, &mut active, env);
    let sid = active.clone().expect("session id");
    // The pending initialize is handed back when the child dies.
    let failed = gw.on_child_exit(&sid).expect("failed waiters");
    assert_eq!(failed.len(), 1);
    assert_eq!(failed[0].1.client_id, JsonValue::Int(1));
    assert_eq!(failed[0].1.method, "initialize".to_string());
    // A second exit finds nothing pending.
    assert_eq!(gw.on_child_exit(&sid).expect("empty").len(), 0);
    assert!(gw.on_child_exit("server_404").is_err());
}
