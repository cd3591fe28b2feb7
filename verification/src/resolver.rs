//! The project-root resolver: maps a language and an existing path to the
//! project's top-level directory by walking upward through ancestor
//! directories looking for ecosystem marker files.
//!
//! The walk is bounded: the starting directory and at most nine ancestors
//! are examined; if no marker is found within that bound, or the
//! filesystem root is reached, resolution falls back to the starting
//! directory, so it always succeeds for an existing path.

use vstd::prelude::*;
use crate::fsio::FileSystem;
use crate::paths::{
    spec_parent, spec_join, spec_ancestor_within, parent_dir, join_path, lemma_ancestor_monotone,
};
use crate::strutil::{str_eq, ascii_lowercase, spec_lower};

verus! {

/// How many directories the upward walk examines beyond the first.
pub const MAX_WALK_STEPS: u64 = 9;

/// Why resolution failed.
#[derive(Debug, PartialEq, Eq, Structural)]
pub enum RootError {
    /// The given path does not exist.
    PathNotFound,
    /// The given path is a file with no parent directory in the model.
    NoParent,
}

/// The views of a list of strings.
pub open spec fn views_of(v: Seq<String>) -> Seq<Seq<char>> {
    v.map_values(|s: String| s@)
}

/// The marker files of a language (already lowercased); an unrecognized or
/// generic language checks the union of all ecosystems' markers.
pub open spec fn spec_markers(lang: Seq<char>) -> Seq<Seq<char>> {
    if lang == "rust"@ {
        seq!["Cargo.toml"@]
    } else if lang == "javascript"@ || lang == "typescript"@ {
        seq!["package.json"@, "tsconfig.json"@]
    } else if lang == "python"@ {
        seq!["pyproject.toml"@, "setup.py"@, "requirements.txt"@]
    } else if lang == "go"@ {
        seq!["go.mod"@]
    } else if lang == "c"@ || lang == "cpp"@ {
        seq!["CMakeLists.txt"@, "Makefile"@, "configure"@]
    } else if lang == "java"@ {
        seq!["pom.xml"@, "build.gradle"@, "settings.gradle"@]
    } else {
        seq![
            "Cargo.toml"@,
            "package.json"@,
            "pyproject.toml"@,
            "go.mod"@,
            "CMakeLists.txt"@,
            "Makefile"@,
            "pom.xml"@,
            "build.gradle"@,
        ]
    }
}

/// The marker files checked for a language, lowercasing it first.
pub fn marker_files(language: &str) -> (r: Vec<String>)
    ensures
        views_of(r@) == spec_markers(spec_lower(language@)),
{
    let lang = ascii_lowercase(language);
    let mut v: Vec<String> = Vec::new();
    if str_eq(lang.as_str(), "rust") {
        v.push("Cargo.toml".to_owned());
        proof {
            assert(views_of(v@) =~= spec_markers(spec_lower(language@)));
        }
    } else if str_eq(lang.as_str(), "javascript") || str_eq(lang.as_str(), "typescript") {
        v.push("package.json".to_owned());
        v.push("tsconfig.json".to_owned());
        proof {
            assert(views_of(v@) =~= spec_markers(spec_lower(language@)));
        }
    } else if str_eq(lang.as_str(), "python") {
        v.push("pyproject.toml".to_owned());
        v.push("setup.py".to_owned());
        v.push("requirements.txt".to_owned());
        proof {
            assert(views_of(v@) =~= spec_markers(spec_lower(language@)));
        }
    } else if str_eq(lang.as_str(), "go") {
        v.push("go.mod".to_owned());
        proof {
            assert(views_of(v@) =~= spec_markers(spec_lower(language@)));
        }
    } else if str_eq(lang.as_str(), "c") || str_eq(lang.as_str(), "cpp") {
        v.push("CMakeLists.txt".to_owned());
        v.push("Makefile".to_owned());
        v.push("configure".to_owned());
        proof {
            assert(views_of(v@) =~= spec_markers(spec_lower(language@)));
        }
    } else if str_eq(lang.as_str(), "java") {
        v.push("pom.xml".to_owned());
        v.push("build.gradle".to_owned());
        v.push("settings.gradle".to_owned());
        proof {
            assert(views_of(v@) =~= spec_markers(spec_lower(language@)));
        }
    } else {
        v.push("Cargo.toml".to_owned());
        v.push("package.json".to_owned());
        v.push("pyproject.toml".to_owned());
        v.push("go.mod".to_owned());
        v.push("CMakeLists.txt".to_owned());
        v.push("Makefile".to_owned());
        v.push("pom.xml".to_owned());
        v.push("build.gradle".to_owned());
        proof {
            assert(views_of(v@) =~= spec_markers(spec_lower(language@)));
        }
    }
    v
}

/// Whether any marker file exists directly in `dir`.
pub open spec fn spec_has_marker<F: FileSystem>(
    fs: &F,
    markers: Seq<Seq<char>>,
    dir: Seq<char>,
) -> bool {
    exists|k: int|
        0 <= k < markers.len() && fs.exists_spec(spec_join(dir, #[trigger] markers[k]))
}

/// The directory the bounded upward walk lands on: the first of `cur` and
/// its ancestors holding a marker, else — after `fuel` upward steps, at the
/// root, or where a step no longer changes the directory — `start`.
pub open spec fn spec_walk<F: FileSystem>(
    fs: &F,
    markers: Seq<Seq<char>>,
    cur: Seq<char>,
    start: Seq<char>,
    fuel: nat,
) -> Seq<char>
    decreases fuel,
{
    if spec_has_marker(fs, markers, cur) {
        cur
    } else if fuel == 0 {
        start
    } else {
        match spec_parent(cur) {
            Some(p) => if p == cur {
                start
            } else {
                spec_walk(fs, markers, p, start, (fuel - 1) as nat)
            },
            None => start,
        }
    }
}

/// The starting directory for a path: the path itself when it is a
/// directory, else its parent.
pub open spec fn spec_start_dir<F: FileSystem>(fs: &F, path: Seq<char>) -> Option<Seq<char>> {
    if fs.is_dir_spec(path) {
        Some(path)
    } else {
        spec_parent(path)
    }
}

/// What resolution returns for a language and path.
pub open spec fn spec_resolve_root<F: FileSystem>(fs: &F, lang: Seq<char>, path: Seq<char>) -> Seq<
    char,
> {
    let start = spec_start_dir(fs, path)->Some_0;
    spec_walk(fs, spec_markers(spec_lower(lang)), start, start, MAX_WALK_STEPS as nat)
}

fn has_marker_in<F: FileSystem>(fs: &F, markers: &Vec<String>, dir: &str) -> (r: bool)
    ensures
        r == spec_has_marker(fs, views_of(markers@), dir@),
{
    let n = markers.len();
    let mut k: usize = 0;
    while k < n
        invariant
            n == markers@.len(),
            k <= n,
            forall|j: int|
                0 <= j < k ==> !fs.exists_spec(
                    spec_join(dir@, #[trigger] views_of(markers@)[j]),
                ),
        decreases n - k,
    {
        let candidate = join_path(dir, markers[k].as_str());
        if fs.path_exists(candidate.as_str()) {
            proof {
                assert(views_of(markers@)[k as int] == markers@[k as int]@);
            }
            return true;
        }
        k += 1;
    }
    false
}

/// Resolves the project root for a language and an existing path: the
/// first directory holding a marker file, searched from the path's
/// directory upward through at most nine ancestors, falling back to the
/// starting directory. Fails exactly when the path does not exist, or is a
/// file with no parent directory.
pub fn find_project_root<F: FileSystem>(fs: &F, language: &str, file_path: &str) -> (r: Result<
    String,
    RootError,
>)
    ensures
        r == Err::<String, RootError>(RootError::PathNotFound) <==> !fs.exists_spec(file_path@),
        fs.exists_spec(file_path@) ==> match spec_start_dir(fs, file_path@) {
            Some(start) => r matches Ok(root) && root@ == spec_walk(
                fs,
                spec_markers(spec_lower(language@)),
                start,
                start,
                MAX_WALK_STEPS as nat,
            ),
            None => r == Err::<String, RootError>(RootError::NoParent),
        },
{
    if !fs.path_exists(file_path) {
        return Err(RootError::PathNotFound);
    }
    let start: String = if fs.is_dir(file_path) {
        file_path.to_owned()
    } else {
        match parent_dir(file_path) {
            Some(p) => p,
            None => {
                return Err(RootError::NoParent);
            },
        }
    };
    let markers = marker_files(language);
    let ghost gm = views_of(markers@);
    let ghost gstart = start@;
    let mut cur: String = start.clone();
    let mut fuel: u64 = MAX_WALK_STEPS;
    while fuel > 0
        invariant
            fs.exists_spec(file_path@),
            spec_start_dir(fs, file_path@) == Some(gstart),
            gm == views_of(markers@),
            gm == spec_markers(spec_lower(language@)),
            gstart == start@,
            fuel <= MAX_WALK_STEPS,
            spec_walk(fs, gm, gstart, gstart, MAX_WALK_STEPS as nat) == spec_walk(
                fs,
                gm,
                cur@,
                gstart,
                fuel as nat,
            ),
        decreases fuel,
    {
        if has_marker_in(fs, &markers, cur.as_str()) {
            return Ok(cur);
        }
        match parent_dir(cur.as_str()) {
            Some(p) => {
                if str_eq(p.as_str(), cur.as_str()) {
                    return Ok(start);
                }
                proof {
                    assert(spec_parent(cur@) == Some(p@));
                    assert(p@ != cur@);
                    assert(spec_walk(fs, gm, cur@, gstart, fuel as nat) == spec_walk(
                        fs,
                        gm,
                        p@,
                        gstart,
                        (fuel - 1) as nat,
                    ));
                }
                cur = p;
            },
            None => {
                return Ok(start);
            },
        }
        fuel -= 1;
    }
    if has_marker_in(fs, &markers, cur.as_str()) {
        return Ok(cur);
    }
    Ok(start)
}

/// Whether a single directory is itself a project root for the language:
/// it exists, is a directory, and holds one of the language's marker
/// files. No walking is involved, and a path that does not exist is never
/// a root.
pub fn is_project_root<F: FileSystem>(fs: &F, language: &str, dir_path: &str) -> (r: bool)
    ensures
        r == (fs.exists_spec(dir_path@) && fs.is_dir_spec(dir_path@) && spec_has_marker(
            fs,
            spec_markers(spec_lower(language@)),
            dir_path@,
        )),
        !fs.exists_spec(dir_path@) ==> !r,
{
    if !fs.path_exists(dir_path) || !fs.is_dir(dir_path) {
        return false;
    }
    let markers = marker_files(language);
    has_marker_in(fs, &markers, dir_path)
}

/// The walk only lands on the starting directory or one of its ancestors,
/// reached within the bounded number of upward steps.
pub proof fn lemma_walk_is_ancestor<F: FileSystem>(
    fs: &F,
    markers: Seq<Seq<char>>,
    cur: Seq<char>,
    start: Seq<char>,
    fuel: nat,
    sofar: nat,
)
    requires
        spec_ancestor_within(cur, start, sofar),
    ensures
        spec_ancestor_within(spec_walk(fs, markers, cur, start, fuel), start, sofar + fuel),
    decreases fuel,
{
    if spec_has_marker(fs, markers, cur) {
        lemma_ancestor_monotone(cur, start, sofar, sofar + fuel);
    } else if fuel == 0 {
        assert(spec_ancestor_within(start, start, 0));
        lemma_ancestor_monotone(start, start, 0, sofar + fuel);
    } else {
        match spec_parent(cur) {
            Some(p) => {
                if p == cur {
                    lemma_ancestor_monotone(start, start, 0, sofar + fuel);
                } else {
                    lemma_ancestor_step(cur, start, sofar);
                    lemma_walk_is_ancestor(fs, markers, p, start, (fuel - 1) as nat, sofar + 1);
                    assert(sofar + 1 + (fuel - 1) == sofar + fuel);
                }
            },
            None => {
                lemma_ancestor_monotone(start, start, 0, sofar + fuel);
            },
        }
    }
}

/// A parent of a directory within `k` steps of `start` is within `k + 1`.
proof fn lemma_ancestor_step(cur: Seq<char>, start: Seq<char>, k: nat)
    requires
        spec_ancestor_within(cur, start, k),
        spec_parent(cur) is Some,
    ensures
        spec_ancestor_within(spec_parent(cur)->Some_0, start, k + 1),
    decreases k,
{
    let p = spec_parent(cur)->Some_0;
    if cur == start {
        assert(spec_ancestor_within(p, p, k));
        assert(spec_ancestor_within(p, start, k + 1));
    } else {
        match spec_parent(start) {
            Some(q) => {
                lemma_ancestor_step(cur, q, (k - 1) as nat);
                assert(spec_ancestor_within(p, q, k));
                assert(spec_ancestor_within(p, start, k + 1));
            },
            None => {},
        }
    }
}

/// The directory that resolution lands on for an existing path is the
/// starting directory or one of its ancestors, reached within the bounded
/// walk.
pub proof fn lemma_resolved_root_is_ancestor<F: FileSystem>(
    fs: &F,
    lang: Seq<char>,
    path: Seq<char>,
)
    requires
        spec_start_dir(fs, path) is Some,
    ensures
        spec_ancestor_within(
            spec_resolve_root(fs, lang, path),
            spec_start_dir(fs, path)->Some_0,
            MAX_WALK_STEPS as nat,
        ),
{
    let start = spec_start_dir(fs, path)->Some_0;
    assert(spec_ancestor_within(start, start, 0));
    lemma_walk_is_ancestor(
        fs,
        spec_markers(spec_lower(lang)),
        start,
        start,
        MAX_WALK_STEPS as nat,
        0,
    );
}

} // verus!
