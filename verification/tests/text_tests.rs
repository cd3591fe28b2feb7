use lsp_gateway::hover::{sanitize_markdown, format_hover_data};
use lsp_gateway::fsdata::{is_image_file, is_audio_file, name_matches_query, MatchResult,
    directory_item_of_match};
use lsp_gateway::logger::{Logger, LogLevel, init};
use lsp_gateway::config::{ServerConfig, ServerCapabilities};
use lsp_gateway::languages::{get_supported_languages, get_recognized_languages, is_supported};
use lsp_gateway::strutil::{str_eq, ascii_lowercase, u64_to_string, parse_u64_digits};
use lsp_gateway::dto::CompletionItem;

#[test]
fn sanitize_escapes_lone_stars_only() {
    assert_eq!(sanitize_markdown("a*b"), "a\\*b".to_string());
    assert_eq!(sanitize_markdown("**bold**"), "**bold**".to_string());
    assert_eq!(sanitize_markdown("x * y * z"), "x \\* y \\* z".to_string());
}

#[test]
fn sanitize_escapes_underscores_and_headings() {
    assert_eq!(sanitize_markdown("_ital_"), "\\_ital\\_".to_string());
    assert_eq!(sanitize_markdown("## heading"), "\\## heading".to_string());
    assert_eq!(sanitize_markdown("plain"), "plain".to_string());
    assert_eq!(sanitize_markdown(""), "".to_string());
}

#[test]
fn format_hover_rejects_empty_and_keeps_raw() {
    assert!(format_hover_data("").is_err());
    let text = "```rust\nfn demo() -> i32\n```\nReturns a number.";
    let d = format_hover_data(text).expect("formatted");
    assert_eq!(d.raw, text.to_string());
}

#[test]
fn format_hover_extracts_signature_and_documentation() {
    let text = "my_crate::demo\nfn demo(x: i32) -> i32\nAdds one to its argument.";
    let d = format_hover_data(text).expect("formatted");
    // The title is sanitized for markdown rendering: the underscore is
    // escaped.
    assert_eq!(d.title, "my\\_crate::demo".to_string());
    assert_eq!(d.signature, Some("fn demo(x: i32) -> i32".to_string()));
    assert_eq!(d.documentation, Some("Adds one to its argument.".to_string()));
}

#[test]
fn format_hover_reads_code_fences() {
    let text = "header\n```rust\nfn one() {}\nfn two() {}\n```";
    let d = format_hover_data(text).expect("formatted");
    assert_eq!(d.signature, Some("fn one() {}".to_string()));
    assert_eq!(d.source_code, Some("fn one() {}\nfn two() {}".to_string()));
}

#[test]
fn image_and_audio_suffixes() {
    assert!(is_image_file("/a/b/photo.PNG"));
    assert!(is_image_file("shot.jpeg"));
    assert!(!is_image_file("notes.txt"));
    assert!(is_audio_file("song.Mp3"));
    assert!(is_audio_file("take.flac"));
    assert!(!is_audio_file("movie.mp4"));
}

#[test]
fn name_query_matching_ignores_case() {
    assert!(name_matches_query("MainWindow.rs", "window"));
    assert!(name_matches_query("README", "readme"));
    assert!(!name_matches_query("lib.rs", "window"));
}

#[test]
fn match_result_converts_to_directory_item() {
    let m = MatchResult {
        path: "/p/a.rs".to_string(),
        name: "a.rs".to_string(),
        line_number: 3,
        preview_text: "fn a()".to_string(),
        is_directory: false,
    };
    let item = directory_item_of_match(m);
    assert_eq!(item.item_type, "file".to_string());
    assert_eq!(item.needs_loading, None);
    assert_eq!(item.name, "a.rs".to_string());
}

#[test]
fn logger_filters_by_level_and_formats_entries() {
    let mut log = init("/tmp/gateway.log", LogLevel::Info);
    assert!(log.is_available());
    log.info("Gateway", "started");
    log.debug("Gateway", "verbose detail");
    log.error("Gateway", "boom");
    let entries = log.drain();
    assert_eq!(entries.len(), 2);
    assert_eq!(entries[0], "[INFO ] [Gateway]: started".to_string());
    assert_eq!(entries[1], "[ERROR] [Gateway]: boom".to_string());
    assert_eq!(LogLevel::Warn.as_str(), "WARN ");
}

#[test]
fn logger_reset_restores_info_level() {
    let mut log = init("/tmp/gateway.log", LogLevel::Trace);
    log.trace("C", "kept");
    log.reset();
    log.trace("C", "dropped after reset");
    let entries = log.drain();
    assert_eq!(entries.len(), 1);
}

#[test]
fn server_config_builders_accumulate() {
    let c = ServerConfig::new("/root/dir")
        .expect("config")
        .with_executable("rust-analyzer")
        .with_arg("--log-file")
        .with_env_var("RUST_BACKTRACE", "1")
        .with_env_var("RUST_BACKTRACE", "full");
    assert_eq!(c.root_path, "/root/dir".to_string());
    assert_eq!(c.executable_path, Some("rust-analyzer".to_string()));
    assert_eq!(c.additional_args, vec!["--log-file".to_string()]);
    // The latest setting of a variable wins.
    assert_eq!(c.env_vars.last().unwrap().1, "full".to_string());
    let caps = ServerCapabilities::default();
    assert!(caps.hover && caps.completion && caps.rename && caps.diagnostics);
    let c2 = c.duplicate();
    assert_eq!(c2.root_path, "/root/dir".to_string());
    assert_eq!(c2.executable_path, Some("rust-analyzer".to_string()));
}

#[test]
fn language_lists_and_membership() {
    assert_eq!(get_supported_languages(), vec!["rust".to_string()]);
    assert_eq!(
        get_recognized_languages(),
        vec![
            "rust".to_string(),
            "javascript".to_string(),
            "typescript".to_string(),
            "python".to_string()
        ]
    );
    assert!(is_supported("rust"));
    assert!(!is_supported("cobol"));
}

#[test]
fn string_utilities_behave() {
    assert!(str_eq("abc", "abc"));
    assert!(!str_eq("abc", "abd"));
    assert_eq!(ascii_lowercase("RuSt-42"), "rust-42".to_string());
    assert_eq!(u64_to_string(0), "0".to_string());
    assert_eq!(u64_to_string(90210), "90210".to_string());
    assert_eq!(parse_u64_digits(b"12345"), Some(12345));
    assert_eq!(parse_u64_digits(b""), None);
    assert_eq!(parse_u64_digits(b"12a"), None);
    assert_eq!(parse_u64_digits(b"18446744073709551615"), Some(u64::MAX));
    assert_eq!(parse_u64_digits(b"18446744073709551616"), None);
}

#[test]
fn completion_item_holds_its_parts() {
    let item = CompletionItem::new("push", "method", Some("fn push(&mut self)".to_string()), None);
    assert_eq!(item.label, "push".to_string());
    assert_eq!(item.kind, "method".to_string());
    assert_eq!(item.detail, Some("fn push(&mut self)".to_string()));
    assert_eq!(item.documentation, None);
}
