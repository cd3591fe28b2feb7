use lsp_gateway::registry::{ServerFactory, CreateError, CapabilitiesPlan, handle_request};
use lsp_gateway::adapter::Adapter;
use lsp_gateway::fsio::MemFs;
use lsp_gateway::json::JsonValue;

fn obj(pairs: Vec<(&str, JsonValue)>) -> JsonValue {
    JsonValue::Obj(pairs.into_iter().map(|(k, v)| (k.to_string(), v)).collect())
}

fn cargo_project() -> MemFs {
    let mut fs = MemFs::new();
    fs.add_dir("/".to_string());
    fs.add_dir("/proj".to_string());
    fs.add_file("/proj/Cargo.toml".to_string());
    fs
}

#[test]
fn create_server_indexes_under_sequential_ids() {
    let mut f = ServerFactory::new();
    let fs = cargo_project();
    let first = f.create_server(&fs, "rust", "/proj").expect("first");
    let second = f.create_server(&fs, "Rust", "/proj").expect("second");
    assert_eq!(first, "server_1".to_string());
    assert_eq!(second, "server_2".to_string());
    assert_eq!(f.server_count(), 2);
}

#[test]
fn create_server_rejects_missing_path_without_entry() {
    let mut f = ServerFactory::new();
    let fs = cargo_project();
    let r = f.create_server(&fs, "rust", "/absent");
    assert!(matches!(r, Err(CreateError::PathNotFound)));
    assert_eq!(f.server_count(), 0);
}

#[test]
fn create_server_distinguishes_planned_and_unsupported() {
    let mut f = ServerFactory::new();
    let mut fs = cargo_project();
    fs.add_file("/proj/app.ts".to_string());
    match f.create_server(&fs, "TypeScript", "/proj/app.ts") {
        Err(CreateError::NotImplemented(l)) => assert_eq!(l, "typescript".to_string()),
        other => panic!("unexpected {:?}", other),
    }
    match f.create_server(&fs, "cobol", "/proj") {
        Err(CreateError::Unsupported(l)) => assert_eq!(l, "cobol".to_string()),
        other => panic!("unexpected {:?}", other),
    }
    assert_eq!(f.server_count(), 0);
}

#[test]
fn stop_server_reports_missing_ids() {
    let mut f = ServerFactory::new();
    let fs = cargo_project();
    let id = f.create_server(&fs, "rust", "/proj").expect("created");
    assert!(f.stop_server(&id).is_ok());
    assert!(f.stop_server(&id).is_err());
}

#[test]
fn forward_to_missing_server_fails() {
    let mut f = ServerFactory::new();
    let env = obj(vec![("method", JsonValue::Str("x".to_string()))]);
    assert!(f.forward_request("server_9", env).is_err());
}

#[test]
fn dispatch_initialize_spawns_and_forwards() {
    let mut a = Adapter::new("rust".to_string(), "/proj").expect("adapter");
    let env = obj(vec![
        ("jsonrpc", JsonValue::Str("2.0".to_string())),
        ("id", JsonValue::Int(1)),
        ("method", JsonValue::Str("initialize".to_string())),
        ("params", obj(vec![("rootUri", JsonValue::Str("file:///old".to_string()))])),
    ]);
    let out = handle_request(&mut a, env);
    assert!(out.reply.is_none());
    let spawn = out.spawn.expect("spawn");
    assert_eq!(spawn.root_path, "/proj".to_string());
    assert!(a.is_running());
    assert_eq!(out.child_messages.len(), 1);
    let params = out.child_messages[0].get("params").expect("params");
    assert_eq!(params.get("rootUri"), Some(&JsonValue::Str("file:///proj".to_string())));
}

#[test]
fn dispatch_initialize_without_params_is_invalid() {
    let mut a = Adapter::new("rust".to_string(), "/proj").expect("adapter");
    let env = obj(vec![
        ("jsonrpc", JsonValue::Str("2.0".to_string())),
        ("id", JsonValue::Int(1)),
        ("method", JsonValue::Str("initialize".to_string())),
    ]);
    let out = handle_request(&mut a, env);
    let reply = out.reply.expect("reply");
    let code = reply.get("error").and_then(|e| e.get("code"));
    assert_eq!(code, Some(&JsonValue::Int(-32602)));
    assert!(out.spawn.is_none());
    assert!(!a.is_running());
}

#[test]
fn dispatch_forwards_unhandled_requests_to_the_child() {
    // Transparent forwarding: the request is registered and sent on; the
    // child's answer will be relayed under the client's id.
    let mut a = Adapter::new("rust".to_string(), "/proj").expect("adapter");
    let env = obj(vec![
        ("jsonrpc", JsonValue::Str("2.0".to_string())),
        ("id", JsonValue::Int(4)),
        ("method", JsonValue::Str("workspace/symbol".to_string())),
        ("params", obj(vec![("query", JsonValue::Str("a".to_string()))])),
    ]);
    let out = handle_request(&mut a, env);
    assert!(out.reply.is_none());
    assert_eq!(out.child_messages.len(), 1);
    let fwd = &out.child_messages[0];
    assert_eq!(fwd.get("method"), Some(&JsonValue::Str("workspace/symbol".to_string())));
    assert_eq!(fwd.get("id"), Some(&JsonValue::Int(1)), "the link's own id");
    // The child's reply resolves back to the client's id 4.
    let payload = obj(vec![("id", JsonValue::Int(1)), ("result", JsonValue::Bool(true))]);
    match a.on_child_payload(payload) {
        lsp_gateway::adapter::AdapterEvent::Reply { reply } => {
            assert_eq!(reply.get("id"), Some(&JsonValue::Int(4)));
            assert_eq!(reply.get("result"), Some(&JsonValue::Bool(true)));
        }
        _ => panic!("expected relayed reply"),
    }
}

#[test]
fn dispatch_forwards_unhandled_notifications_to_the_child() {
    let mut a = Adapter::new("rust".to_string(), "/proj").expect("adapter");
    let env = obj(vec![
        ("jsonrpc", JsonValue::Str("2.0".to_string())),
        ("method", JsonValue::Str("workspace/didChangeConfiguration".to_string())),
        ("params", obj(vec![])),
    ]);
    let out = handle_request(&mut a, env);
    assert!(out.reply.is_none());
    assert_eq!(out.child_messages.len(), 1);
    assert!(out.child_messages[0].get("id").is_none(), "forwarded as a notification");
}

#[test]
fn dispatch_routes_document_lifecycle_methods() {
    let mut a = Adapter::new("rust".to_string(), "/proj").expect("adapter");
    let uri = "file:///proj/a.rs";
    let open = obj(vec![
        ("jsonrpc", JsonValue::Str("2.0".to_string())),
        ("method", JsonValue::Str("textDocument/didOpen".to_string())),
        (
            "params",
            obj(vec![(
                "textDocument",
                obj(vec![
                    ("uri", JsonValue::Str(uri.to_string())),
                    ("text", JsonValue::Str("one".to_string())),
                ]),
            )]),
        ),
    ]);
    let _ = handle_request(&mut a, open);
    assert_eq!(a.doc_content(uri), Some(&"one".to_string()));
    let change = obj(vec![
        ("jsonrpc", JsonValue::Str("2.0".to_string())),
        ("method", JsonValue::Str("textDocument/didChange".to_string())),
        (
            "params",
            obj(vec![
                ("textDocument", obj(vec![("uri", JsonValue::Str(uri.to_string()))])),
                (
                    "contentChanges",
                    JsonValue::Arr(vec![obj(vec![("text", JsonValue::Str("two".to_string()))])]),
                ),
            ]),
        ),
    ]);
    let out = handle_request(&mut a, change);
    assert_eq!(out.child_messages.len(), 1);
    assert_eq!(a.doc_content(uri), Some(&"two".to_string()));
    let save = obj(vec![
        ("jsonrpc", JsonValue::Str("2.0".to_string())),
        ("method", JsonValue::Str("textDocument/didSave".to_string())),
        ("params", obj(vec![("textDocument", obj(vec![("uri", JsonValue::Str(uri.to_string()))]))])),
    ]);
    let out2 = handle_request(&mut a, save);
    assert_eq!(out2.child_messages.len(), 1);
    let close = obj(vec![
        ("jsonrpc", JsonValue::Str("2.0".to_string())),
        ("method", JsonValue::Str("textDocument/didClose".to_string())),
        ("params", obj(vec![("textDocument", obj(vec![("uri", JsonValue::Str(uri.to_string()))]))])),
    ]);
    let out3 = handle_request(&mut a, close);
    assert_eq!(out3.child_messages.len(), 1);
    assert_eq!(a.doc_content(uri), None);
}

#[test]
fn capability_probe_for_rust_handshakes() {
    let f = ServerFactory::new();
    match f.get_server_capabilities("rust", "/cwd") {
        CapabilitiesPlan::Probe { adapter: _, request } => {
            assert_eq!(
                request.get("method"),
                Some(&JsonValue::Str("initialize".to_string()))
            );
        }
        CapabilitiesPlan::Immediate { .. } => panic!("expected probe"),
    }
}

#[test]
fn capability_errors_for_other_languages() {
    let f = ServerFactory::new();
    match f.get_server_capabilities("python", "/cwd") {
        CapabilitiesPlan::Immediate { payload } => {
            assert_eq!(
                payload.get("_type"),
                Some(&JsonValue::Str("capabilities_error".to_string()))
            );
            assert_eq!(
                payload.get("source"),
                Some(&JsonValue::Str("server_factory_planned_language".to_string()))
            );
        }
        CapabilitiesPlan::Probe { .. } => panic!("expected immediate error"),
    }
    match f.get_server_capabilities("cobol", "/cwd") {
        CapabilitiesPlan::Immediate { payload } => {
            assert_eq!(
                payload.get("source"),
                Some(&JsonValue::Str("server_factory_unsupported_language".to_string()))
            );
        }
        CapabilitiesPlan::Probe { .. } => panic!("expected immediate error"),
    }
}

#[test]
fn standalone_instance_detects_unknown_language() {
    let f = ServerFactory::new();
    let mut fs = cargo_project();
    fs.add_dir("/proj/src".to_string());
    fs.add_file("/proj/src/main.rs".to_string());
    let a = f
        .create_language_server_instance(&fs, "unknown", "/proj/src/main.rs")
        .expect("adapter");
    assert!(!a.is_running());
    let r = f.create_language_server_instance(&fs, "cobol", "/proj");
    assert!(matches!(r, Err(CreateError::Unsupported(_))));
    let r2 = f.create_language_server_instance(&fs, "rust", "/absent");
    assert!(matches!(r2, Err(CreateError::PathNotFound)));
}

#[test]
fn registry_exposes_root_resolution() {
    let f = ServerFactory::new();
    let mut fs = cargo_project();
    fs.add_dir("/proj/src".to_string());
    fs.add_file("/proj/src/lib.rs".to_string());
    assert_eq!(
        f.find_project_root(&fs, "rust", "/proj/src/lib.rs"),
        Ok("/proj".to_string())
    );
    assert!(f.is_project_root(&fs, "rust", "/proj"));
    assert!(!f.is_project_root(&fs, "rust", "/proj/src"));
}
