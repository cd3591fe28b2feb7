use lsp_gateway::json::{JsonValue, obj_set, obj_take, json_clone};
use lsp_gateway::rpc::{error_response, success_response, request_envelope, notification_envelope,
    is_notification};

fn obj(pairs: Vec<(&str, JsonValue)>) -> JsonValue {
    JsonValue::Obj(pairs.into_iter().map(|(k, v)| (k.to_string(), v)).collect())
}

#[test]
fn get_finds_first_binding() {
    let v = obj(vec![("a", JsonValue::Int(1)), ("b", JsonValue::Bool(true))]);
    assert_eq!(v.get("a"), Some(&JsonValue::Int(1)));
    assert_eq!(v.get("b"), Some(&JsonValue::Bool(true)));
    assert_eq!(v.get("c"), None);
    assert_eq!(JsonValue::Null.get("a"), None);
}

#[test]
fn obj_set_replaces_or_appends() {
    let v = obj(vec![("a", JsonValue::Int(1))]);
    let v = obj_set(v, "a".to_string(), JsonValue::Int(2));
    assert_eq!(v.get("a"), Some(&JsonValue::Int(2)));
    let v = obj_set(v, "b".to_string(), JsonValue::Str("x".to_string()));
    assert_eq!(v.get("b"), Some(&JsonValue::Str("x".to_string())));
    assert_eq!(v.get("a"), Some(&JsonValue::Int(2)));
    // A non-object is left unchanged.
    let n = obj_set(JsonValue::Int(7), "a".to_string(), JsonValue::Null);
    assert_eq!(n, JsonValue::Int(7));
}

#[test]
fn obj_take_removes_binding() {
    let v = obj(vec![("a", JsonValue::Int(1)), ("b", JsonValue::Int(2))]);
    let (rest, taken) = obj_take(v, "a");
    assert_eq!(taken, Some(JsonValue::Int(1)));
    assert_eq!(rest.get("a"), None);
    assert_eq!(rest.get("b"), Some(&JsonValue::Int(2)));
}

#[test]
fn json_clone_is_deep_and_equal() {
    let v = obj(vec![
        ("s", JsonValue::Str("text".to_string())),
        ("arr", JsonValue::Arr(vec![JsonValue::Int(1), JsonValue::Null])),
        ("o", obj(vec![("inner", JsonValue::Bool(false))])),
    ]);
    let c = json_clone(&v);
    assert_eq!(c, v);
}

#[test]
fn error_response_shape() {
    let r = error_response(JsonValue::Int(4), -32601, "no such method".to_string());
    assert_eq!(r.get("jsonrpc"), Some(&JsonValue::Str("2.0".to_string())));
    assert_eq!(r.get("id"), Some(&JsonValue::Int(4)));
    let e = r.get("error").expect("error");
    assert_eq!(e.get("code"), Some(&JsonValue::Int(-32601)));
    assert_eq!(e.get("message"), Some(&JsonValue::Str("no such method".to_string())));
    assert_eq!(r.get("result"), None);
}

#[test]
fn success_response_shape() {
    let r = success_response(JsonValue::Str("abc".to_string()), JsonValue::Bool(true));
    assert_eq!(r.get("id"), Some(&JsonValue::Str("abc".to_string())));
    assert_eq!(r.get("result"), Some(&JsonValue::Bool(true)));
    assert_eq!(r.get("error"), None);
}

#[test]
fn envelopes_and_notification_classification() {
    let req = request_envelope(12, "initialize".to_string(), Some(JsonValue::Null));
    assert_eq!(req.get("id"), Some(&JsonValue::Int(12)));
    assert_eq!(req.get("method"), Some(&JsonValue::Str("initialize".to_string())));
    assert_eq!(req.get("params"), Some(&JsonValue::Null));
    assert!(!is_notification(&req));
    let note = notification_envelope("exit".to_string(), None);
    assert_eq!(note.get("id"), None);
    assert!(is_notification(&note));
}
