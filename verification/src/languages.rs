//! The languages the gateway knows.
//!
//! A supported language has a working adapter; a recognized language is
//! one root resolution knows marker files for.

use vstd::prelude::*;
use crate::strutil::str_eq;
use crate::resolver::views_of;

verus! {

pub open spec fn spec_supported_languages() -> Seq<Seq<char>> {
    seq!["rust"@]
}

pub open spec fn spec_recognized_languages() -> Seq<Seq<char>> {
    seq!["rust"@, "javascript"@, "typescript"@, "python"@]
}

pub open spec fn spec_is_supported(lang: Seq<char>) -> bool {
    lang == "rust"@
}

pub open spec fn spec_is_recognized(lang: Seq<char>) -> bool {
    lang == "rust"@ || lang == "javascript"@ || lang == "typescript"@ || lang == "python"@
}

/// The languages a server can be created for.
pub fn get_supported_languages() -> (r: Vec<String>)
    ensures
        views_of(r@) == spec_supported_languages(),
{
    let mut v: Vec<String> = Vec::new();
    v.push("rust".to_owned());
    proof {
        assert(views_of(v@) =~= spec_supported_languages());
    }
    v
}

/// The languages root resolution has marker files for.
pub fn get_recognized_languages() -> (r: Vec<String>)
    ensures
        views_of(r@) == spec_recognized_languages(),
{
    let mut v: Vec<String> = Vec::new();
    v.push("rust".to_owned());
    v.push("javascript".to_owned());
    v.push("typescript".to_owned());
    v.push("python".to_owned());
    proof {
        assert(views_of(v@) =~= spec_recognized_languages());
    }
    v
}

pub fn is_supported(lang: &str) -> (r: bool)
    ensures
        r == spec_is_supported(lang@),
{
    str_eq(lang, "rust")
}

pub fn is_recognized(lang: &str) -> (r: bool)
    ensures
        r == spec_is_recognized(lang@),
{
    str_eq(lang, "rust") || str_eq(lang, "javascript") || str_eq(lang, "typescript") || str_eq(
        lang,
        "python",
    )
}

/// The language names the gateway distinguishes are pairwise distinct.
pub proof fn lemma_language_names_distinct()
    ensures
        "rust"@.len() == 4,
        "javascript"@.len() == 10,
        "typescript"@.len() == 10,
        "python"@.len() == 6,
        "unknown"@.len() == 7,
        "generic"@.len() == 7,
        "plaintext"@.len() == 9,
        "javascript"@[0] == 'j',
        "typescript"@[0] == 't',
        "unknown"@[0] == 'u',
        "generic"@[0] == 'g',
{
    reveal_strlit("rust");
    reveal_strlit("javascript");
    reveal_strlit("typescript");
    reveal_strlit("python");
    reveal_strlit("unknown");
    reveal_strlit("generic");
    reveal_strlit("plaintext");
}

/// The supported languages joined for an error message.
pub open spec fn spec_supported_list() -> Seq<char> {
    "rust"@
}

pub fn supported_list() -> (r: String)
    ensures
        r@ == spec_supported_list(),
{
    "rust".to_owned()
}

} // verus!
