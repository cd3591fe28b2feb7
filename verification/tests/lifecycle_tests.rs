use lsp_gateway::lifecycle::{
    GatewayLifecycle, StartDecision, ProbeOutcome, RetryDecision, ActiveServers,
    plan_stdio_server_start, StdioStartPlan, StdioStartError,
};
use lsp_gateway::fsio::MemFs;

#[test]
fn starting_twice_is_idempotent() {
    // The second start request on the same port reports success without
    // creating a second listener.
    let mut lc = GatewayLifecycle::new();
    assert_eq!(lc.start_requested(9000), StartDecision::Probe(9000));
    assert_eq!(lc.on_probe(9000, true), ProbeOutcome::Bind(9000));
    assert!(lc.is_running());
    assert_eq!(lc.start_requested(9000), StartDecision::AlreadyRunning);
}

#[test]
fn occupied_port_assumes_another_instance() {
    let mut lc = GatewayLifecycle::new();
    assert_eq!(lc.start_requested(9000), StartDecision::Probe(9000));
    assert_eq!(lc.on_probe(9000, false), ProbeOutcome::AssumeRunning);
    assert!(lc.is_running());
}

#[test]
fn serve_failures_retry_adjacent_ports_then_give_up() {
    let mut lc = GatewayLifecycle::new();
    let _ = lc.start_requested(9000);
    let _ = lc.on_probe(9000, true);
    assert_eq!(lc.on_serve_failed(), RetryDecision::Retry(9001));
    assert_eq!(lc.on_serve_failed(), RetryDecision::Retry(9002));
    assert_eq!(lc.on_serve_failed(), RetryDecision::Retry(9003));
    assert_eq!(lc.on_serve_failed(), RetryDecision::Retry(9004));
    assert_eq!(lc.on_serve_failed(), RetryDecision::GiveUp);
    assert!(!lc.is_running());
}

#[test]
fn stop_is_a_no_op_when_not_running() {
    let mut lc = GatewayLifecycle::new();
    assert!(!lc.stop());
    let _ = lc.start_requested(9000);
    let _ = lc.on_probe(9000, true);
    assert!(lc.stop());
    assert!(!lc.is_running());
    assert!(!lc.stop());
}

#[test]
fn exit_hook_stops_a_running_listener() {
    let mut lc = GatewayLifecycle::new();
    let _ = lc.on_probe(9000, true);
    assert!(lc.cleanup_on_exit());
    assert!(!lc.is_running());
}

#[test]
fn active_servers_deduplicate_languages() {
    let mut a = ActiveServers::new();
    assert!(!a.contains_language("rust"));
    assert!(a.claim("rust".to_string()));
    assert!(a.contains_language("rust"));
    assert!(!a.claim("rust".to_string()));
    a.release("rust");
    assert!(!a.contains_language("rust"));
}

fn rs_file_fs() -> MemFs {
    let mut fs = MemFs::new();
    fs.add_dir("/p".to_string());
    fs.add_file("/p/main.rs".to_string());
    fs
}

#[test]
fn stdio_start_rejects_missing_path() {
    let mut a = ActiveServers::new();
    let fs = rs_file_fs();
    let r = plan_stdio_server_start(&mut a, &fs, "rust", "/missing.rs");
    assert!(matches!(r, Err(StdioStartError::PathNotFound)));
}

#[test]
fn stdio_start_detects_language_from_extension() {
    let mut a = ActiveServers::new();
    let fs = rs_file_fs();
    match plan_stdio_server_start(&mut a, &fs, "unknown", "/p/main.rs") {
        Ok(StdioStartPlan::Start(lang)) => assert_eq!(lang, "rust".to_string()),
        other => panic!("unexpected {:?}", other),
    }
    assert!(a.contains_language("rust"));
}

#[test]
fn stdio_start_rejects_unsupported_language() {
    let mut a = ActiveServers::new();
    let fs = rs_file_fs();
    match plan_stdio_server_start(&mut a, &fs, "cobol", "/p/main.rs") {
        Err(StdioStartError::Unsupported(lang)) => assert_eq!(lang, "cobol".to_string()),
        other => panic!("unexpected {:?}", other),
    }
}

#[test]
fn stdio_start_skips_already_running_language() {
    let mut a = ActiveServers::new();
    let fs = rs_file_fs();
    assert!(a.claim("rust".to_string()));
    match plan_stdio_server_start(&mut a, &fs, "rust", "/p/main.rs") {
        Ok(StdioStartPlan::AlreadyRunning(lang)) => assert_eq!(lang, "rust".to_string()),
        other => panic!("unexpected {:?}", other),
    }
}
