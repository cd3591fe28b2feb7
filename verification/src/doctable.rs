//! The adapter's document store.
//!
//! An entry exists exactly between a document's `didOpen` and its
//! `didClose`; `didChange` replaces the content wholesale with the latest
//! full text, and diagnostics notifications attach to the entry (creating
//! an empty-content one if the document was never opened).

use vstd::prelude::*;
use crate::json::JsonValue;
use crate::strutil::str_eq;

verus! {

/// One open document: its current full text and its latest diagnostics.
pub struct DocumentData {
    pub content: String,
    pub diagnostics: Vec<JsonValue>,
}

/// The entry stored under a URI, first binding wins.
pub open spec fn spec_doc_lookup(s: Seq<(String, DocumentData)>, uri: Seq<char>) -> Option<
    DocumentData,
>
    decreases s.len(),
{
    if s.len() == 0 {
        None
    } else if s[0].0@ == uri {
        Some(s[0].1)
    } else {
        spec_doc_lookup(s.drop_first(), uri)
    }
}

proof fn lemma_doc_absent_none(s: Seq<(String, DocumentData)>, uri: Seq<char>)
    requires
        forall|j: int| 0 <= j < s.len() ==> #[trigger] s[j].0@ != uri,
    ensures
        spec_doc_lookup(s, uri) is None,
    decreases s.len(),
{
    if s.len() > 0 {
        lemma_doc_absent_none(s.drop_first(), uri);
    }
}

proof fn lemma_doc_first_match(s: Seq<(String, DocumentData)>, i: int)
    requires
        0 <= i < s.len(),
        forall|j: int| 0 <= j < i ==> #[trigger] s[j].0@ != s[i].0@,
    ensures
        spec_doc_lookup(s, s[i].0@) == Some(s[i].1),
    decreases i,
{
    if i > 0 {
        assert(s.drop_first()[i - 1] == s[i]);
        lemma_doc_first_match(s.drop_first(), i - 1);
    }
}

proof fn lemma_doc_update(s: Seq<(String, DocumentData)>, i: int, d: DocumentData, k: Seq<char>)
    requires
        0 <= i < s.len(),
        forall|j: int| 0 <= j < i ==> #[trigger] s[j].0@ != s[i].0@,
    ensures
        spec_doc_lookup(s.update(i, (s[i].0, d)), s[i].0@) == Some(d),
        k != s[i].0@ ==> spec_doc_lookup(s.update(i, (s[i].0, d)), k) == spec_doc_lookup(s, k),
    decreases i,
{
    let up = s.update(i, (s[i].0, d));
    if i == 0 {
        assert(up[0] == (s[0].0, d));
        assert(up.drop_first() =~= s.drop_first());
    } else {
        assert(up[0] == s[0]);
        assert(up.drop_first() =~= s.drop_first().update(i - 1, (s[i].0, d)));
        assert(s.drop_first()[i - 1] == s[i]);
        lemma_doc_update(s.drop_first(), i - 1, d, k);
    }
}

proof fn lemma_doc_push(s: Seq<(String, DocumentData)>, p: (String, DocumentData), k: Seq<char>)
    ensures
        spec_doc_lookup(s.push(p), k) == (if spec_doc_lookup(s, k) is Some {
            spec_doc_lookup(s, k)
        } else if p.0@ == k {
            Some(p.1)
        } else {
            None::<DocumentData>
        }),
    decreases s.len(),
{
    if s.len() == 0 {
        assert(s.push(p)[0] == p);
        assert(s.push(p).drop_first() =~= Seq::<(String, DocumentData)>::empty());
        if p.0@ != k {
            assert(spec_doc_lookup(s.push(p), k) == spec_doc_lookup(
                s.push(p).drop_first(),
                k,
            ));
        }
    } else {
        assert(s.push(p)[0] == s[0]);
        assert(s.push(p).drop_first() =~= s.drop_first().push(p));
        lemma_doc_push(s.drop_first(), p, k);
    }
}

proof fn lemma_doc_remove(s: Seq<(String, DocumentData)>, i: int, k: Seq<char>)
    requires
        0 <= i < s.len(),
        k != s[i].0@,
    ensures
        spec_doc_lookup(s.remove(i), k) == spec_doc_lookup(s, k),
    decreases i,
{
    let rm = s.remove(i);
    if i == 0 {
        assert(rm =~= s.drop_first());
    } else {
        assert(rm[0] == s[0]);
        assert(rm.drop_first() =~= s.drop_first().remove(i - 1));
        assert(s.drop_first()[i - 1] == s[i]);
        lemma_doc_remove(s.drop_first(), i - 1, k);
    }
}

/// The document store of one adapter.
pub struct DocTable {
    entries: Vec<(String, DocumentData)>,
}

impl DocTable {
    pub closed spec fn spec_entries(&self) -> Seq<(String, DocumentData)> {
        self.entries@
    }

    /// The entry stored for a URI.
    pub open spec fn spec_doc(&self, uri: Seq<char>) -> Option<DocumentData> {
        spec_doc_lookup(self.spec_entries(), uri)
    }

    pub fn new() -> (r: Self)
        ensures
            r.spec_entries() == Seq::<(String, DocumentData)>::empty(),
    {
        DocTable { entries: Vec::new() }
    }

    pub fn len(&self) -> (r: usize)
        ensures
            r == self.spec_entries().len(),
    {
        self.entries.len()
    }

    fn find(&self, uri: &str) -> (r: Option<usize>)
        ensures
            match r {
                Some(i) => {
                    &&& i < self.spec_entries().len()
                    &&& self.spec_entries()[i as int].0@ == uri@
                    &&& forall|j: int|
                        0 <= j < i ==> #[trigger] self.spec_entries()[j].0@ != uri@
                    &&& self.spec_doc(uri@) == Some(self.spec_entries()[i as int].1)
                },
                None => self.spec_doc(uri@) is None,
            },
    {
        let n = self.entries.len();
        let mut i: usize = 0;
        while i < n
            invariant
                n == self.entries@.len(),
                i <= n,
                forall|j: int| 0 <= j < i ==> #[trigger] self.entries@[j].0@ != uri@,
            decreases n - i,
        {
            if str_eq(self.entries[i].0.as_str(), uri) {
                proof {
                    lemma_doc_first_match(self.entries@, i as int);
                }
                return Some(i);
            }
            i += 1;
        }
        proof {
            lemma_doc_absent_none(self.entries@, uri@);
        }
        None
    }

    /// A `didOpen`: stores the document's full text with no diagnostics,
    /// replacing any previous entry for the URI.
    pub fn open_doc(&mut self, uri: String, text: String)
        ensures
            final(self).spec_doc(uri@) matches Some(d) && d.content@ == text@
                && d.diagnostics@.len() == 0,
            forall|k: Seq<char>| k != uri@ ==> final(self).spec_doc(k) == old(self).spec_doc(k),
    {
        let d = DocumentData { content: text, diagnostics: Vec::new() };
        self.put(uri, d);
    }

    /// A full-text `didChange`: replaces the content, keeping diagnostics;
    /// a change for an unopened document creates its entry.
    pub fn change_doc(&mut self, uri: String, text: String)
        ensures
            final(self).spec_doc(uri@) matches Some(d) && d.content@ == text@
                && d.diagnostics@ == (match old(self).spec_doc(uri@) {
                Some(o) => o.diagnostics@,
                None => Seq::<JsonValue>::empty(),
            }),
            forall|k: Seq<char>| k != uri@ ==> final(self).spec_doc(k) == old(self).spec_doc(k),
    {
        match self.find(uri.as_str()) {
            Some(i) => {
                let ghost before = self.entries@;
                let (name, data) = self.entries.remove(i);
                let d = DocumentData { content: text, diagnostics: data.diagnostics };
                self.entries.insert(i, (name, d));
                proof {
                    assert(self.entries@ =~= before.update(
                        i as int,
                        (before[i as int].0, self.entries@[i as int].1),
                    ));
                    lemma_doc_update(before, i as int, self.entries@[i as int].1, uri@);
                    assert forall|k: Seq<char>| k != uri@ implies spec_doc_lookup(
                        self.entries@,
                        k,
                    ) == spec_doc_lookup(before, k) by {
                        lemma_doc_update(before, i as int, self.entries@[i as int].1, k);
                    }
                }
            },
            None => {
                let d = DocumentData { content: text, diagnostics: Vec::new() };
                let ghost before = self.entries@;
                let ghost guri = uri@;
                self.entries.push((uri, d));
                proof {
                    assert forall|k: Seq<char>| true implies spec_doc_lookup(self.entries@, k)
                        == (if spec_doc_lookup(before, k) is Some {
                        spec_doc_lookup(before, k)
                    } else if guri == k {
                        Some(self.entries@.last().1)
                    } else {
                        None
                    }) by {
                        lemma_doc_push(before, self.entries@.last(), k);
                    }
                }
            },
        }
    }

    /// A diagnostics notification: attaches the diagnostics to the entry,
    /// creating one with empty content if the document is unknown.
    pub fn set_diagnostics(&mut self, uri: String, diagnostics: Vec<JsonValue>)
        ensures
            final(self).spec_doc(uri@) matches Some(d) && d.diagnostics@ == diagnostics@
                && d.content@ == (match old(self).spec_doc(uri@) {
                Some(o) => o.content@,
                None => Seq::<char>::empty(),
            }),
            forall|k: Seq<char>| k != uri@ ==> final(self).spec_doc(k) == old(self).spec_doc(k),
    {
        match self.find(uri.as_str()) {
            Some(i) => {
                let ghost before = self.entries@;
                let (name, data) = self.entries.remove(i);
                let d = DocumentData { content: data.content, diagnostics };
                self.entries.insert(i, (name, d));
                proof {
                    assert(self.entries@ =~= before.update(
                        i as int,
                        (before[i as int].0, self.entries@[i as int].1),
                    ));
                    lemma_doc_update(before, i as int, self.entries@[i as int].1, uri@);
                    assert forall|k: Seq<char>| k != uri@ implies spec_doc_lookup(
                        self.entries@,
                        k,
                    ) == spec_doc_lookup(before, k) by {
                        lemma_doc_update(before, i as int, self.entries@[i as int].1, k);
                    }
                }
            },
            None => {
                let d = DocumentData { content: String::new(), diagnostics };
                let ghost before = self.entries@;
                let ghost guri = uri@;
                self.entries.push((uri, d));
                proof {
                    assert forall|k: Seq<char>| true implies spec_doc_lookup(self.entries@, k)
                        == (if spec_doc_lookup(before, k) is Some {
                        spec_doc_lookup(before, k)
                    } else if guri == k {
                        Some(self.entries@.last().1)
                    } else {
                        None
                    }) by {
                        lemma_doc_push(before, self.entries@.last(), k);
                    }
                }
            },
        }
    }

    /// A `didClose`: removes the entry; no document entry for the URI
    /// remains.
    pub fn close_doc(&mut self, uri: &str)
        ensures
            final(self).spec_doc(uri@) is None,
            forall|k: Seq<char>| k != uri@ ==> final(self).spec_doc(k) == old(self).spec_doc(k),
    {
        let ghost orig = self.entries@;
        let mut i: usize = 0;
        while i < self.entries.len()
            invariant
                i <= self.entries.len(),
                forall|j: int| 0 <= j < i ==> #[trigger] self.entries@[j].0@ != uri@,
                forall|k: Seq<char>|
                    k != uri@ ==> spec_doc_lookup(self.entries@, k) == spec_doc_lookup(orig, k),
            decreases self.entries.len() - i,
        {
            if str_eq(self.entries[i].0.as_str(), uri) {
                let ghost before = self.entries@;
                let _ = self.entries.remove(i);
                proof {
                    assert forall|k: Seq<char>| k != uri@ implies spec_doc_lookup(
                        self.entries@,
                        k,
                    ) == spec_doc_lookup(before, k) by {
                        lemma_doc_remove(before, i as int, k);
                    }
                }
            } else {
                i += 1;
            }
        }
        proof {
            lemma_doc_absent_none(self.entries@, uri@);
        }
    }

    /// The stored content of a document.
    pub fn get_content(&self, uri: &str) -> (r: Option<&String>)
        ensures
            match r {
                Some(c) => self.spec_doc(uri@) matches Some(d) && d.content == *c,
                None => self.spec_doc(uri@) is None,
            },
    {
        match self.find(uri) {
            Some(i) => Some(&self.entries[i].1.content),
            None => None,
        }
    }

    /// Replaces the whole entry for a URI.
    fn put(&mut self, uri: String, d: DocumentData)
        ensures
            final(self).spec_doc(uri@) == Some(d),
            forall|k: Seq<char>| k != uri@ ==> final(self).spec_doc(k) == old(self).spec_doc(k),
    {
        match self.find(uri.as_str()) {
            Some(i) => {
                let ghost before = self.entries@;
                let (name, _old) = self.entries.remove(i);
                self.entries.insert(i, (name, d));
                proof {
                    assert(self.entries@ =~= before.update(
                        i as int,
                        (before[i as int].0, self.entries@[i as int].1),
                    ));
                    lemma_doc_update(before, i as int, self.entries@[i as int].1, uri@);
                    assert forall|k: Seq<char>| k != uri@ implies spec_doc_lookup(
                        self.entries@,
                        k,
                    ) == spec_doc_lookup(before, k) by {
                        lemma_doc_update(before, i as int, self.entries@[i as int].1, k);
                    }
                }
            },
            None => {
                let ghost before = self.entries@;
                let ghost guri = uri@;
                self.entries.push((uri, d));
                proof {
                    assert forall|k: Seq<char>| true implies spec_doc_lookup(self.entries@, k)
                        == (if spec_doc_lookup(before, k) is Some {
                        spec_doc_lookup(before, k)
                    } else if guri == k {
                        Some(self.entries@.last().1)
                    } else {
                        None
                    }) by {
                        lemma_doc_push(before, self.entries@.last(), k);
                    }
                }
            },
        }
    }
}

} // verus!
