//! A plain model of filesystem paths and file URIs.
//!
//! The gateway works on the absolute, `/`-separated paths that arrive in
//! `file://` URIs. A path's parent is the path with its last component
//! removed; the root `/` has none, and neither has a path without any
//! separator.

use vstd::prelude::*;
use crate::strutil::{strip_prefix, spec_starts_with, to_char_vec};
use vstd::string::{StrSliceExecFns, StringExecFns};

verus! {

/// The index of the last `/`, if any.
pub open spec fn spec_last_slash(s: Seq<char>) -> Option<int>
    decreases s.len(),
{
    if s.len() == 0 {
        None
    } else if s.last() == '/' {
        Some(s.len() - 1)
    } else {
        spec_last_slash(s.drop_last())
    }
}

/// The parent directory of a path.
pub open spec fn spec_parent(s: Seq<char>) -> Option<Seq<char>> {
    if s =~= seq!['/'] {
        None
    } else {
        match spec_last_slash(s) {
            None => None,
            Some(i) => if i == 0 {
                Some(seq!['/'])
            } else {
                Some(s.take(i))
            },
        }
    }
}

/// A directory path joined with one entry name.
pub open spec fn spec_join(dir: Seq<char>, name: Seq<char>) -> Seq<char> {
    if dir.len() > 0 && dir.last() == '/' {
        dir + name
    } else {
        dir + seq!['/'] + name
    }
}

/// `anc` is reached from `start` by at most `k` parent steps.
pub open spec fn spec_ancestor_within(anc: Seq<char>, start: Seq<char>, k: nat) -> bool
    decreases k,
{
    if anc == start {
        true
    } else if k == 0 {
        false
    } else {
        match spec_parent(start) {
            Some(p) => spec_ancestor_within(anc, p, (k - 1) as nat),
            None => false,
        }
    }
}

/// An ancestor within a small bound is one within any larger bound.
pub proof fn lemma_ancestor_monotone(anc: Seq<char>, start: Seq<char>, k1: nat, k2: nat)
    requires
        spec_ancestor_within(anc, start, k1),
        k1 <= k2,
    ensures
        spec_ancestor_within(anc, start, k2),
    decreases k1,
{
    if anc != start && k1 > 0 {
        match spec_parent(start) {
            Some(p) => {
                lemma_ancestor_monotone(anc, p, (k1 - 1) as nat, (k2 - 1) as nat);
            },
            None => {},
        }
    }
}

/// The index of the last `/`, searched from the end.
fn last_slash(cs: &Vec<char>) -> (r: Option<usize>)
    ensures
        match r {
            Some(i) => spec_last_slash(cs@) == Some(i as int) && i < cs@.len(),
            None => spec_last_slash(cs@) is None,
        },
{
    let mut i: usize = cs.len();
    proof {
        assert(cs@.take(cs@.len() as int) =~= cs@);
    }
    while i > 0
        invariant
            i <= cs.len(),
            spec_last_slash(cs@) == spec_last_slash(cs@.take(i as int)),
        decreases i,
    {
        proof {
            assert(cs@.take(i as int).last() == cs@[i - 1]);
            assert(cs@.take(i as int).drop_last() =~= cs@.take(i - 1));
        }
        if cs[i - 1] == '/' {
            return Some(i - 1);
        }
        i -= 1;
    }
    proof {
        assert(cs@.take(0) =~= Seq::<char>::empty());
    }
    None
}

/// The parent directory of a path, under the model above.
pub fn parent_dir(path: &str) -> (r: Option<String>)
    ensures
        match r {
            Some(p) => spec_parent(path@) == Some(p@),
            None => spec_parent(path@) is None,
        },
{
    let cs = to_char_vec(path);
    if cs.len() == 1 && cs[0] == '/' {
        proof {
            assert(path@ =~= seq!['/']);
        }
        return None;
    }
    proof {
        assert(!(path@ =~= seq!['/']));
    }
    match last_slash(&cs) {
        None => None,
        Some(i) => {
            if i == 0 {
                let mut root = String::new();
                crate::strutil::push_char(&mut root, '/');
                proof {
                    assert(root@ =~= seq!['/']);
                }
                Some(root)
            } else {
                let n = path.unicode_len();
                let p = path.substring_char(0, i);
                proof {
                    assert(p@ =~= path@.take(i as int));
                }
                Some(p.to_owned())
            }
        },
    }
}

/// Joins a directory path and an entry name.
pub fn join_path(dir: &str, name: &str) -> (r: String)
    ensures
        r@ == spec_join(dir@, name@),
{
    let n = dir.unicode_len();
    let mut out = dir.to_owned();
    if n == 0 || dir.get_char(n - 1) != '/' {
        out.append("/");
        proof {
            reveal_strlit("/");
        }
    }
    out.append(name);
    proof {
        if dir@.len() > 0 && dir@.last() == '/' {
            assert(out@ =~= dir@ + name@);
        } else {
            assert(out@ =~= dir@ + seq!['/'] + name@);
        }
    }
    out
}

/// The path carried by a `file://` URI; any other string is taken as a
/// path already.
pub fn uri_to_path(uri: &str) -> (r: String)
    ensures
        spec_starts_with(uri@, "file://"@) ==> r@ == uri@.skip("file://"@.len() as int),
        !spec_starts_with(uri@, "file://"@) ==> r@ == uri@,
{
    match strip_prefix(uri, "file://") {
        Some(rest) => rest,
        None => uri.to_owned(),
    }
}

/// The `file://` URI for a path.
pub fn path_to_uri(path: &str) -> (r: String)
    ensures
        r@ == "file://"@ + path@,
{
    let mut out = "file://".to_owned();
    out.append(path);
    out
}

} // verus!
