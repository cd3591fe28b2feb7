//! The filesystem as the gateway consumes it: an existence and metadata
//! check, dependency-injected so the resolver and the language detector
//! can be verified against any implementation.
//!
//! [`MemFs`] is the library's own implementation over plain lists of
//! paths; the surrounding application provides one backed by the real
//! filesystem.

use vstd::prelude::*;
use crate::strutil::str_eq;
use crate::paths::{spec_parent, parent_dir};
use crate::strutil::{spec_ends_with, str_ends_with};

verus! {

/// What root resolution and language detection ask of a filesystem.
///
/// The spec members default to an unspecified value, so an implementation
/// outside the verified world needs to provide only the three runtime
/// checks; an implementation inside it gives the spec members meaning.
pub trait FileSystem {
    /// Whether a path exists.
    open spec fn exists_spec(&self, path: Seq<char>) -> bool {
        arbitrary()
    }

    /// Whether a path exists and is a directory.
    open spec fn is_dir_spec(&self, path: Seq<char>) -> bool {
        arbitrary()
    }

    /// Whether some entry directly in `dir` has the name suffix `suffix`.
    open spec fn dir_has_suffix_spec(&self, dir: Seq<char>, suffix: Seq<char>) -> bool {
        arbitrary()
    }

    fn path_exists(&self, path: &str) -> (r: bool)
        ensures
            r == self.exists_spec(path@),
    ;

    fn is_dir(&self, path: &str) -> (r: bool)
        ensures
            r == self.is_dir_spec(path@),
    ;

    fn dir_has_suffix(&self, dir: &str, suffix: &str) -> (r: bool)
        ensures
            r == self.dir_has_suffix_spec(dir@, suffix@),
    ;
}

/// A filesystem held in memory: a list of directories and a list of
/// files, each an absolute path.
pub struct MemFs {
    pub dirs: Vec<String>,
    pub files: Vec<String>,
}

impl MemFs {
    pub open spec fn spec_has_dir(&self, path: Seq<char>) -> bool {
        exists|i: int| 0 <= i < self.dirs@.len() && #[trigger] self.dirs@[i]@ == path
    }

    pub open spec fn spec_has_file(&self, path: Seq<char>) -> bool {
        exists|i: int| 0 <= i < self.files@.len() && #[trigger] self.files@[i]@ == path
    }

    pub fn new() -> (r: Self)
        ensures
            r.dirs@.len() == 0,
            r.files@.len() == 0,
    {
        MemFs { dirs: Vec::new(), files: Vec::new() }
    }

    /// Records a directory.
    pub fn add_dir(&mut self, path: String)
        ensures
            final(self).dirs@ == old(self).dirs@.push(path),
            final(self).files@ == old(self).files@,
    {
        self.dirs.push(path);
    }

    /// Records a file.
    pub fn add_file(&mut self, path: String)
        ensures
            final(self).files@ == old(self).files@.push(path),
            final(self).dirs@ == old(self).dirs@,
    {
        self.files.push(path);
    }

    fn contains(list: &Vec<String>, path: &str) -> (r: bool)
        ensures
            r == exists|i: int| 0 <= i < list@.len() && #[trigger] list@[i]@ == path@,
    {
        let n = list.len();
        let mut i: usize = 0;
        while i < n
            invariant
                n == list@.len(),
                i <= n,
                forall|j: int| 0 <= j < i ==> #[trigger] list@[j]@ != path@,
            decreases n - i,
        {
            if str_eq(list[i].as_str(), path) {
                return true;
            }
            i += 1;
        }
        false
    }
}

impl FileSystem for MemFs {
    open spec fn exists_spec(&self, path: Seq<char>) -> bool {
        self.spec_has_dir(path) || self.spec_has_file(path)
    }

    open spec fn is_dir_spec(&self, path: Seq<char>) -> bool {
        self.spec_has_dir(path)
    }

    open spec fn dir_has_suffix_spec(&self, dir: Seq<char>, suffix: Seq<char>) -> bool {
        exists|i: int|
            0 <= i < self.files@.len() && spec_parent(#[trigger] self.files@[i]@) == Some(dir)
                && spec_ends_with(self.files@[i]@, suffix)
    }

    fn path_exists(&self, path: &str) -> (r: bool) {
        Self::contains(&self.dirs, path) || Self::contains(&self.files, path)
    }

    fn is_dir(&self, path: &str) -> (r: bool) {
        Self::contains(&self.dirs, path)
    }

    fn dir_has_suffix(&self, dir: &str, suffix: &str) -> (r: bool) {
        let n = self.files.len();
        let mut i: usize = 0;
        while i < n
            invariant
                n == self.files@.len(),
                i <= n,
                forall|j: int|
                    0 <= j < i ==> !(spec_parent(#[trigger] self.files@[j]@) == Some(dir@)
                        && spec_ends_with(self.files@[j]@, suffix@)),
            decreases n - i,
        {
            let in_dir = match parent_dir(self.files[i].as_str()) {
                Some(p) => str_eq(p.as_str(), dir),
                None => false,
            };
            if in_dir && str_ends_with(self.files[i].as_str(), suffix) {
                return true;
            }
            i += 1;
        }
        false
    }
}

} // verus!
