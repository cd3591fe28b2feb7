use lsp_gateway::pending::{PendingTable, PendingEntry};
use lsp_gateway::json::JsonValue;

fn entry(client: i64, method: &str) -> PendingEntry {
    PendingEntry { client_id: JsonValue::Int(client), method: method.to_string() }
}

#[test]
fn resolve_returns_registered_entry() {
    let mut t = PendingTable::new();
    t.register(7, entry(70, "hover"));
    let got = t.resolve(7).expect("entry");
    assert_eq!(got.client_id, JsonValue::Int(70));
    assert_eq!(got.method, "hover".to_string());
    assert!(t.resolve(7).is_none());
}

#[test]
fn reordered_responses_resolve_their_own_waiters() {
    // Three concurrent requests with distinct ids; responses arrive in
    // reverse order, and each resolves exactly the request bearing its id.
    let mut t = PendingTable::new();
    t.register(1, entry(101, "a"));
    t.register(2, entry(102, "b"));
    t.register(3, entry(103, "c"));
    let third = t.resolve(3).expect("third");
    assert_eq!(third.client_id, JsonValue::Int(103));
    let first = t.resolve(1).expect("first");
    assert_eq!(first.client_id, JsonValue::Int(101));
    let second = t.resolve(2).expect("second");
    assert_eq!(second.client_id, JsonValue::Int(102));
    assert_eq!(t.len(), 0);
}

#[test]
fn resolving_unknown_id_changes_nothing() {
    let mut t = PendingTable::new();
    t.register(5, entry(50, "m"));
    assert!(t.resolve(6).is_none());
    assert_eq!(t.len(), 1);
    assert!(t.resolve(5).is_some());
}

#[test]
fn drain_all_hands_every_waiter_back() {
    let mut t = PendingTable::new();
    t.register(1, entry(11, "x"));
    t.register(2, entry(22, "y"));
    let drained = t.drain_all();
    assert_eq!(drained.len(), 2);
    assert_eq!(drained[0].0, 1);
    assert_eq!(drained[1].0, 2);
    assert_eq!(t.len(), 0);
}
