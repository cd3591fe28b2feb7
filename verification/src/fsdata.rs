//! Plain data for the filesystem utilities around the gateway, and the
//! pure predicates they decide with. The walks, reads and searches
//! themselves are I/O and live in the application.

use vstd::prelude::*;
use crate::strutil::{spec_ends_with, str_ends_with, spec_lower, ascii_lowercase};

verus! {

/// One entry of a directory listing.
#[derive(Debug, PartialEq)]
pub struct DirEntry {
    pub name: String,
    pub path: String,
    pub is_directory: bool,
    pub size: u64,
}

/// A file opened into the editor.
#[derive(Debug, PartialEq)]
pub struct FileInfo {
    pub id: String,
    pub path: String,
    pub name: String,
    pub content: String,
    pub is_unsaved: bool,
}

/// One node of a scanned directory tree.
#[derive(Debug, PartialEq)]
pub struct DirectoryItem {
    pub name: String,
    pub path: String,
    pub is_directory: bool,
    pub item_type: String,
    pub children: Option<Vec<DirectoryItem>>,
    pub needs_loading: Option<bool>,
}

/// One content-search hit with its preview line.
#[derive(Debug, PartialEq)]
pub struct MatchResult {
    pub path: String,
    pub name: String,
    pub line_number: u64,
    pub preview_text: String,
    pub is_directory: bool,
}

/// Whether a lowercased path ends in one of the image suffixes.
pub open spec fn spec_is_image(path: Seq<char>) -> bool {
    ||| spec_ends_with(spec_lower(path), ".png"@)
    ||| spec_ends_with(spec_lower(path), ".jpg"@)
    ||| spec_ends_with(spec_lower(path), ".jpeg"@)
    ||| spec_ends_with(spec_lower(path), ".gif"@)
    ||| spec_ends_with(spec_lower(path), ".webp"@)
    ||| spec_ends_with(spec_lower(path), ".svg"@)
    ||| spec_ends_with(spec_lower(path), ".bmp"@)
}

/// Whether a lowercased path ends in one of the audio suffixes.
pub open spec fn spec_is_audio(path: Seq<char>) -> bool {
    ||| spec_ends_with(spec_lower(path), ".mp3"@)
    ||| spec_ends_with(spec_lower(path), ".wav"@)
    ||| spec_ends_with(spec_lower(path), ".ogg"@)
    ||| spec_ends_with(spec_lower(path), ".m4a"@)
    ||| spec_ends_with(spec_lower(path), ".aac"@)
    ||| spec_ends_with(spec_lower(path), ".flac"@)
}

/// Whether the path names an image file, by its suffix.
pub fn is_image_file(path: &str) -> (r: bool)
    ensures
        r == spec_is_image(path@),
{
    let lower = ascii_lowercase(path);
    str_ends_with(lower.as_str(), ".png") || str_ends_with(lower.as_str(), ".jpg")
        || str_ends_with(lower.as_str(), ".jpeg") || str_ends_with(lower.as_str(), ".gif")
        || str_ends_with(lower.as_str(), ".webp") || str_ends_with(lower.as_str(), ".svg")
        || str_ends_with(lower.as_str(), ".bmp")
}

/// Whether the path names an audio file, by its suffix.
pub fn is_audio_file(path: &str) -> (r: bool)
    ensures
        r == spec_is_audio(path@),
{
    let lower = ascii_lowercase(path);
    str_ends_with(lower.as_str(), ".mp3") || str_ends_with(lower.as_str(), ".wav")
        || str_ends_with(lower.as_str(), ".ogg") || str_ends_with(lower.as_str(), ".m4a")
        || str_ends_with(lower.as_str(), ".aac") || str_ends_with(lower.as_str(), ".flac")
}

/// Whether a name matches a search query: the lowercased name contains
/// the lowercased query.
pub fn name_matches_query(name: &str, query: &str) -> (r: bool)
    ensures
        r == crate::hover::spec_contains(spec_lower(name@), spec_lower(query@)),
{
    let ln = ascii_lowercase(name);
    let lq = ascii_lowercase(query);
    let lnc = crate::strutil::to_char_vec(ln.as_str());
    let lqc = crate::strutil::to_char_vec(lq.as_str());
    crate::hover::contains_sub(&lnc, &lqc)
}

/// A content-search hit recast as a tree item, as the plain search API
/// reports it: no children, directories marked for lazy loading.
pub fn directory_item_of_match(m: MatchResult) -> (r: DirectoryItem)
    ensures
        r.name == m.name,
        r.path == m.path,
        r.is_directory == m.is_directory,
        m.is_directory ==> r.item_type@ == "directory"@ && r.needs_loading == Some(true),
        !m.is_directory ==> r.item_type@ == "file"@ && r.needs_loading is None,
        r.children is None,
{
    let item_type = if m.is_directory {
        "directory".to_owned()
    } else {
        "file".to_owned()
    };
    let needs_loading = if m.is_directory {
        Some(true)
    } else {
        None
    };
    DirectoryItem {
        name: m.name,
        path: m.path,
        is_directory: m.is_directory,
        item_type,
        children: None,
        needs_loading,
    }
}

} // verus!
