//! Language detection for paths whose declared language is unknown.
//!
//! A file is judged by its extension; a directory by the manifest files it
//! holds, and failing that by the extensions of its entries, in a fixed
//! priority order. Any query suffix (`?...`) on the path is ignored.

use vstd::prelude::*;
use crate::fsio::FileSystem;
use crate::paths::spec_join;
use crate::paths::join_path;
use crate::strutil::{str_eq, to_char_vec};
use vstd::string::StrSliceExecFns;

verus! {

/// The index of the first occurrence of a character.
pub open spec fn spec_find_char(s: Seq<char>, c: char) -> Option<int>
    decreases s.len(),
{
    if s.len() == 0 {
        None
    } else if s[0] == c {
        Some(0int)
    } else {
        match spec_find_char(s.drop_first(), c) {
            Some(i) => Some(i + 1),
            None => None,
        }
    }
}

/// The index of the last occurrence of a character.
pub open spec fn spec_last_index(s: Seq<char>, c: char) -> Option<int>
    decreases s.len(),
{
    if s.len() == 0 {
        None
    } else if s.last() == c {
        Some(s.len() - 1)
    } else {
        spec_last_index(s.drop_last(), c)
    }
}

/// The path up to any query suffix.
pub open spec fn spec_before_query(s: Seq<char>) -> Seq<char> {
    match spec_find_char(s, '?') {
        Some(i) => s.take(i),
        None => s,
    }
}

/// What follows the last dot; a path without a dot stands as it is.
pub open spec fn spec_after_last_dot(s: Seq<char>) -> Seq<char> {
    match spec_last_index(s, '.') {
        Some(i) => s.skip(i + 1),
        None => s,
    }
}

/// The language a file extension names.
pub open spec fn spec_ext_language(ext: Seq<char>) -> Option<Seq<char>> {
    if ext == "rs"@ {
        Some("rust"@)
    } else if ext == "py"@ {
        Some("python"@)
    } else if ext == "js"@ {
        Some("javascript"@)
    } else if ext == "ts"@ {
        Some("typescript"@)
    } else if ext == "cpp"@ || ext == "h"@ || ext == "c"@ || ext == "cc"@ || ext == "hh"@ {
        Some("cpp"@)
    } else if ext == "java"@ {
        Some("java"@)
    } else if ext == "kt"@ {
        Some("kotlin"@)
    } else if ext == "go"@ {
        Some("go"@)
    } else if ext == "sh"@ {
        Some("bash"@)
    } else if ext == "md"@ {
        Some("markdown"@)
    } else if ext == "html"@ {
        Some("html"@)
    } else if ext == "css"@ {
        Some("css"@)
    } else if ext == "rb"@ {
        Some("ruby"@)
    } else if ext == "php"@ {
        Some("php"@)
    } else if ext == "sql"@ {
        Some("sql"@)
    } else if ext == "xml"@ {
        Some("xml"@)
    } else if ext == "json"@ {
        Some("json"@)
    } else if ext == "yaml"@ || ext == "yml"@ {
        Some("yaml"@)
    } else if ext == "toml"@ {
        Some("toml"@)
    } else if ext == "ini"@ || ext == "cfg"@ || ext == "env"@ {
        Some("ini"@)
    } else if ext == "bat"@ {
        Some("batch"@)
    } else if ext == "ps1"@ || ext == "psm1"@ || ext == "psd1"@ {
        Some("powershell"@)
    } else {
        None
    }
}

/// What detection returns for a directory.
pub open spec fn spec_detect_dir<F: FileSystem>(fs: &F, dir: Seq<char>) -> Option<Seq<char>> {
    if fs.exists_spec(spec_join(dir, "Cargo.toml"@)) {
        Some("rust"@)
    } else if fs.exists_spec(spec_join(dir, "package.json"@)) {
        if fs.exists_spec(spec_join(dir, "tsconfig.json"@)) {
            Some("typescript"@)
        } else {
            Some("javascript"@)
        }
    } else if fs.exists_spec(spec_join(dir, "pyproject.toml"@)) || fs.exists_spec(
        spec_join(dir, "requirements.txt"@),
    ) {
        Some("python"@)
    } else if fs.dir_has_suffix_spec(dir, ".rs"@) {
        Some("rust"@)
    } else if fs.dir_has_suffix_spec(dir, ".py"@) {
        Some("python"@)
    } else if fs.dir_has_suffix_spec(dir, ".js"@) {
        Some("javascript"@)
    } else if fs.dir_has_suffix_spec(dir, ".ts"@) {
        Some("typescript"@)
    } else {
        None
    }
}

/// What detection returns for a path.
pub open spec fn spec_detect<F: FileSystem>(fs: &F, path: Seq<char>) -> Option<Seq<char>> {
    let clean = spec_before_query(path);
    if fs.is_dir_spec(clean) {
        spec_detect_dir(fs, clean)
    } else {
        spec_ext_language(spec_after_last_dot(clean))
    }
}

fn find_char(cs: &Vec<char>, c: char) -> (r: Option<usize>)
    ensures
        match r {
            Some(i) => spec_find_char(cs@, c) == Some(i as int) && i < cs@.len(),
            None => spec_find_char(cs@, c) is None,
        },
{
    let n = cs.len();
    let mut j: usize = 0;
    proof {
        assert(cs@.skip(0) =~= cs@);
    }
    while j < n
        invariant
            n == cs@.len(),
            j <= n,
            match spec_find_char(cs@.skip(j as int), c) {
                Some(i) => spec_find_char(cs@, c) == Some(i + j),
                None => spec_find_char(cs@, c) is None,
            },
        decreases n - j,
    {
        proof {
            assert(cs@.skip(j as int)[0] == cs@[j as int]);
            assert(cs@.skip(j as int).drop_first() =~= cs@.skip(j + 1));
        }
        if cs[j] == c {
            return Some(j);
        }
        j += 1;
    }
    proof {
        assert(cs@.skip(n as int) =~= Seq::<char>::empty());
    }
    None
}

fn last_index(cs: &Vec<char>, c: char) -> (r: Option<usize>)
    ensures
        match r {
            Some(i) => spec_last_index(cs@, c) == Some(i as int) && i < cs@.len(),
            None => spec_last_index(cs@, c) is None,
        },
{
    let mut i: usize = cs.len();
    proof {
        assert(cs@.take(cs@.len() as int) =~= cs@);
    }
    while i > 0
        invariant
            i <= cs.len(),
            spec_last_index(cs@, c) == spec_last_index(cs@.take(i as int), c),
        decreases i,
    {
        proof {
            assert(cs@.take(i as int).last() == cs@[i - 1]);
            assert(cs@.take(i as int).drop_last() =~= cs@.take(i - 1));
        }
        if cs[i - 1] == c {
            return Some(i - 1);
        }
        i -= 1;
    }
    proof {
        assert(cs@.take(0) =~= Seq::<char>::empty());
    }
    None
}

/// The language a file extension names.
pub fn ext_language(ext: &str) -> (r: Option<String>)
    ensures
        match r {
            Some(l) => spec_ext_language(ext@) == Some(l@),
            None => spec_ext_language(ext@) is None,
        },
{
    if str_eq(ext, "rs") {
        Some("rust".to_owned())
    } else if str_eq(ext, "py") {
        Some("python".to_owned())
    } else if str_eq(ext, "js") {
        Some("javascript".to_owned())
    } else if str_eq(ext, "ts") {
        Some("typescript".to_owned())
    } else if str_eq(ext, "cpp") || str_eq(ext, "h") || str_eq(ext, "c") || str_eq(ext, "cc")
        || str_eq(ext, "hh") {
        Some("cpp".to_owned())
    } else if str_eq(ext, "java") {
        Some("java".to_owned())
    } else if str_eq(ext, "kt") {
        Some("kotlin".to_owned())
    } else if str_eq(ext, "go") {
        Some("go".to_owned())
    } else if str_eq(ext, "sh") {
        Some("bash".to_owned())
    } else if str_eq(ext, "md") {
        Some("markdown".to_owned())
    } else if str_eq(ext, "html") {
        Some("html".to_owned())
    } else if str_eq(ext, "css") {
        Some("css".to_owned())
    } else if str_eq(ext, "rb") {
        Some("ruby".to_owned())
    } else if str_eq(ext, "php") {
        Some("php".to_owned())
    } else if str_eq(ext, "sql") {
        Some("sql".to_owned())
    } else if str_eq(ext, "xml") {
        Some("xml".to_owned())
    } else if str_eq(ext, "json") {
        Some("json".to_owned())
    } else if str_eq(ext, "yaml") || str_eq(ext, "yml") {
        Some("yaml".to_owned())
    } else if str_eq(ext, "toml") {
        Some("toml".to_owned())
    } else if str_eq(ext, "ini") || str_eq(ext, "cfg") || str_eq(ext, "env") {
        Some("ini".to_owned())
    } else if str_eq(ext, "bat") {
        Some("batch".to_owned())
    } else if str_eq(ext, "ps1") || str_eq(ext, "psm1") || str_eq(ext, "psd1") {
        Some("powershell".to_owned())
    } else {
        None
    }
}

/// Detects a language from a path: by the manifests or entries of a
/// directory, or by a file's extension.
pub fn detect_language_from_file_extension<F: FileSystem>(fs: &F, file_path: &str) -> (r: Option<
    String,
>)
    ensures
        match r {
            Some(l) => spec_detect(fs, file_path@) == Some(l@),
            None => spec_detect(fs, file_path@) is None,
        },
{
    let cs = to_char_vec(file_path);
    let clean: String = match find_char(&cs, '?') {
        Some(i) => {
            let head = file_path.substring_char(0, i);
            proof {
                assert(head@ =~= file_path@.take(i as int));
            }
            head.to_owned()
        },
        None => file_path.to_owned(),
    };
    proof {
        assert(clean@ == spec_before_query(file_path@));
    }
    if fs.is_dir(clean.as_str()) {
        let cargo = join_path(clean.as_str(), "Cargo.toml");
        if fs.path_exists(cargo.as_str()) {
            return Some("rust".to_owned());
        }
        let pkg = join_path(clean.as_str(), "package.json");
        if fs.path_exists(pkg.as_str()) {
            let tscfg = join_path(clean.as_str(), "tsconfig.json");
            if fs.path_exists(tscfg.as_str()) {
                return Some("typescript".to_owned());
            }
            return Some("javascript".to_owned());
        }
        let pyproject = join_path(clean.as_str(), "pyproject.toml");
        let reqs = join_path(clean.as_str(), "requirements.txt");
        if fs.path_exists(pyproject.as_str()) || fs.path_exists(reqs.as_str()) {
            return Some("python".to_owned());
        }
        if fs.dir_has_suffix(clean.as_str(), ".rs") {
            return Some("rust".to_owned());
        }
        if fs.dir_has_suffix(clean.as_str(), ".py") {
            return Some("python".to_owned());
        }
        if fs.dir_has_suffix(clean.as_str(), ".js") {
            return Some("javascript".to_owned());
        }
        if fs.dir_has_suffix(clean.as_str(), ".ts") {
            return Some("typescript".to_owned());
        }
        return None;
    }
    let ccs = to_char_vec(clean.as_str());
    let ext: String = match last_index(&ccs, '.') {
        Some(i) => {
            let n = clean.as_str().unicode_len();
            let tail = clean.as_str().substring_char(i + 1, n);
            proof {
                assert(n == clean@.len());
            }
            proof {
                assert(tail@ =~= clean@.skip(i + 1));
            }
            tail.to_owned()
        },
        None => clean,
    };
    proof {
        assert(ext@ == spec_after_last_dot(spec_before_query(file_path@)));
    }
    ext_language(ext.as_str())
}

} // verus!
