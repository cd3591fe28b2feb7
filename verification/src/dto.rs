//! The typed request/response shapes the socket API exposes alongside
//! raw JSON-RPC, and the positions, ranges and items they carry.

use vstd::prelude::*;

verus! {

/// A typed request from a client.
#[derive(Debug, PartialEq)]
pub enum LspRequest {
    Initialize { language: String, root_path: String },
    Completion { file_path: String, position: Position },
    Hover { file_path: String, position: Position },
    Definition { file_path: String, position: Position },
    References { file_path: String, position: Position },
    Diagnostics { file_path: String },
    Formatting { file_path: String },
}

/// A typed response to a client.
#[derive(Debug, PartialEq)]
pub enum LspResponse {
    Initialized { success: bool, message: String },
    Completion { items: Vec<CompletionItem> },
    Hover { contents: Option<String> },
    Definition { location: Option<Location> },
    References { locations: Vec<Location> },
    Diagnostics { items: Vec<DiagnosticItem> },
    Formatting { edits: Vec<TextEdit> },
    Error { message: String },
}

/// A zero-based line and character position.
#[derive(Debug, Clone, Copy, PartialEq, Eq, Structural)]
pub struct Position {
    pub line: u32,
    pub character: u32,
}

/// A place in a file.
#[derive(Debug, PartialEq)]
pub struct Location {
    pub file_path: String,
    pub range: Range,
}

/// A span between two positions.
#[derive(Debug, Clone, Copy, PartialEq, Eq, Structural)]
pub struct Range {
    pub start: Position,
    pub end: Position,
}

/// One completion proposal.
#[derive(Debug, PartialEq)]
pub struct CompletionItem {
    pub label: String,
    pub kind: String,
    pub detail: Option<String>,
    pub documentation: Option<String>,
}

/// One diagnostic attached to a span.
#[derive(Debug, PartialEq)]
pub struct DiagnosticItem {
    pub message: String,
    pub severity: String,
    pub range: Range,
}

/// One text replacement.
#[derive(Debug, PartialEq)]
pub struct TextEdit {
    pub range: Range,
    pub new_text: String,
}

impl CompletionItem {
    /// A proposal from its parts.
    pub fn new(label: &str, kind: &str, detail: Option<String>, documentation: Option<String>)
        -> (r: CompletionItem)
        ensures
            r.label@ == label@,
            r.kind@ == kind@,
            r.detail == detail,
            r.documentation == documentation,
    {
        CompletionItem {
            label: label.to_owned(),
            kind: kind.to_owned(),
            detail,
            documentation,
        }
    }
}

} // verus!
