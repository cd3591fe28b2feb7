//! The pending-request table of one process link.
//!
//! Every request sent to a child process is registered here under the
//! numeric id it was sent with; when a response bearing that id arrives the
//! entry is resolved and handed back to exactly that waiter. The spec
//! functions model the table as an association list keyed by id, and the
//! lemmas at the bottom state the correlation law: however responses are
//! reordered, each one resolves only the request bearing its own id.

use vstd::prelude::*;
use crate::json::JsonValue;

verus! {

/// What a waiter needs when its response arrives: the client-side id to
/// answer under and the method the request carried.
pub struct PendingEntry {
    pub client_id: JsonValue,
    pub method: String,
}

/// The entry registered under `id`, first registration wins.
pub open spec fn spec_plookup(s: Seq<(u64, PendingEntry)>, id: u64) -> Option<PendingEntry>
    decreases s.len(),
{
    if s.len() == 0 {
        None
    } else if s[0].0 == id {
        Some(s[0].1)
    } else {
        spec_plookup(s.drop_first(), id)
    }
}

/// The table after a response with `id` has been delivered: every entry
/// under that id is gone, all others stay in order.
pub open spec fn spec_resolve(s: Seq<(u64, PendingEntry)>, id: u64) -> Seq<(u64, PendingEntry)>
    decreases s.len(),
{
    if s.len() == 0 {
        s
    } else if s[0].0 == id {
        spec_resolve(s.drop_first(), id)
    } else {
        seq![s[0]] + spec_resolve(s.drop_first(), id)
    }
}

/// The table after a whole sequence of responses has been delivered.
pub open spec fn spec_resolve_seq(s: Seq<(u64, PendingEntry)>, ids: Seq<u64>) -> Seq<
    (u64, PendingEntry),
>
    decreases ids.len(),
{
    if ids.len() == 0 {
        s
    } else {
        spec_resolve_seq(spec_resolve(s, ids[0]), ids.drop_first())
    }
}

/// What the waiter for `ids[k]` receives when the responses arrive in the
/// order `ids`.
pub open spec fn spec_delivery(s: Seq<(u64, PendingEntry)>, ids: Seq<u64>, k: int) -> Option<
    PendingEntry,
> {
    spec_plookup(spec_resolve_seq(s, ids.take(k)), ids[k])
}

/// A request/response correlation table.
pub struct PendingTable {
    entries: Vec<(u64, PendingEntry)>,
}

impl PendingTable {
    pub closed spec fn spec_entries(&self) -> Seq<(u64, PendingEntry)> {
        self.entries@
    }

    /// The entry currently registered under `id`.
    pub open spec fn spec_pending(&self, id: u64) -> Option<PendingEntry> {
        spec_plookup(self.spec_entries(), id)
    }

    pub fn new() -> (r: Self)
        ensures
            r.spec_entries() == Seq::<(u64, PendingEntry)>::empty(),
    {
        PendingTable { entries: Vec::new() }
    }

    pub fn len(&self) -> (r: usize)
        ensures
            r == self.spec_entries().len(),
    {
        self.entries.len()
    }

    /// Registers a waiter under `id`.
    pub fn register(&mut self, id: u64, entry: PendingEntry)
        ensures
            final(self).spec_entries() == old(self).spec_entries().push((id, entry)),
    {
        self.entries.push((id, entry));
    }

    /// Delivers the response bearing `id`: hands back the waiter registered
    /// under it and removes it from the table; every other waiter stays.
    pub fn resolve(&mut self, id: u64) -> (r: Option<PendingEntry>)
        ensures
            r == spec_plookup(old(self).spec_entries(), id),
            final(self).spec_entries() == spec_resolve(old(self).spec_entries(), id),
    {
        let ghost orig = self.entries@;
        let mut out: Option<PendingEntry> = None;
        let mut i: usize = 0;
        proof {
            assert(orig.take(0) =~= Seq::<(u64, PendingEntry)>::empty());
            assert(orig.skip(0) =~= orig);
            assert(self.entries@.take(0) + spec_resolve(self.entries@.skip(0), id)
                =~= spec_resolve(orig, id));
        }
        while i < self.entries.len()
            invariant
                i <= self.entries.len(),
                forall|j: int| 0 <= j < i ==> #[trigger] self.entries@[j].0 != id,
                self.entries@.take(i as int) + spec_resolve(self.entries@.skip(i as int), id)
                    =~= spec_resolve(orig, id),
                out is Some ==> spec_plookup(orig, id) == out,
                out is None ==> spec_plookup(self.entries@.skip(i as int), id) == spec_plookup(
                    orig,
                    id,
                ),
            decreases self.entries.len() - i,
        {
            let ghost before = self.entries@;
            if self.entries[i].0 == id {
                let removed = self.entries.remove(i);
                proof {
                    assert(before.skip(i as int)[0] == before[i as int]);
                    assert(before.skip(i as int).drop_first() =~= before.skip(i + 1));
                    assert(spec_resolve(before.skip(i as int), id) == spec_resolve(
                        before.skip(i + 1),
                        id,
                    ));
                    assert(self.entries@ =~= before.remove(i as int));
                    assert(self.entries@.take(i as int) =~= before.take(i as int));
                    assert(self.entries@.skip(i as int) =~= before.skip(i + 1));
                    if out is None {
                        assert(spec_plookup(before.skip(i as int), id) == Some(
                            before[i as int].1,
                        ));
                    }
                }
                if out.is_none() {
                    out = Some(removed.1);
                }
            } else {
                proof {
                    assert(before.skip(i as int)[0] == before[i as int]);
                    assert(before.skip(i as int).drop_first() =~= before.skip(i + 1));
                    assert(spec_resolve(before.skip(i as int), id) =~= seq![before[i as int]]
                        + spec_resolve(before.skip(i + 1), id));
                    assert(before.take(i + 1) =~= before.take(i as int).push(before[i as int]));
                    assert(before.take(i + 1) + spec_resolve(before.skip(i + 1), id)
                        =~= spec_resolve(orig, id));
                }
                i += 1;
            }
        }
        proof {
            assert(self.entries@.take(i as int) =~= self.entries@);
            assert(self.entries@.skip(i as int) =~= Seq::<(u64, PendingEntry)>::empty());
            assert(self.entries@ + Seq::<(u64, PendingEntry)>::empty() =~= self.entries@);
            if out is None {
                assert(spec_plookup(orig, id) is None);
            }
        }
        out
    }

    /// Empties the table when the link dies: every still-pending waiter is
    /// handed back so its caller can observe the failure.
    pub fn drain_all(&mut self) -> (r: Vec<(u64, PendingEntry)>)
        ensures
            final(self).spec_entries() == Seq::<(u64, PendingEntry)>::empty(),
            r@ == old(self).spec_entries(),
    {
        let mut out: Vec<(u64, PendingEntry)> = Vec::new();
        std::mem::swap(&mut out, &mut self.entries);
        out
    }
}

/// A response nobody waits for changes nothing.
pub proof fn lemma_resolve_absent(s: Seq<(u64, PendingEntry)>, id: u64)
    requires
        spec_plookup(s, id) is None,
    ensures
        spec_resolve(s, id) == s,
    decreases s.len(),
{
    if s.len() > 0 {
        assert(s[0].0 != id);
        lemma_resolve_absent(s.drop_first(), id);
        assert(seq![s[0]] + s.drop_first() =~= s);
    }
}

/// Delivering one response leaves every other id's entry untouched.
pub proof fn lemma_resolve_preserves_others(s: Seq<(u64, PendingEntry)>, i: u64, j: u64)
    requires
        i != j,
    ensures
        spec_plookup(spec_resolve(s, i), j) == spec_plookup(s, j),
    decreases s.len(),
{
    if s.len() > 0 {
        lemma_resolve_preserves_others(s.drop_first(), i, j);
        if s[0].0 == i {
        } else {
            let rest = spec_resolve(s.drop_first(), i);
            assert((seq![s[0]] + rest)[0] == s[0]);
            assert((seq![s[0]] + rest).drop_first() =~= rest);
        }
    }
}

/// Responses for other ids, in any number and order, leave an id's entry
/// untouched.
pub proof fn lemma_resolve_seq_preserves(s: Seq<(u64, PendingEntry)>, ids: Seq<u64>, j: u64)
    requires
        forall|m: int| 0 <= m < ids.len() ==> #[trigger] ids[m] != j,
    ensures
        spec_plookup(spec_resolve_seq(s, ids), j) == spec_plookup(s, j),
    decreases ids.len(),
{
    if ids.len() > 0 {
        lemma_resolve_preserves_others(s, ids[0], j);
        assert(forall|m: int|
            0 <= m < ids.drop_first().len() ==> #[trigger] ids.drop_first()[m] != j);
        lemma_resolve_seq_preserves(spec_resolve(s, ids[0]), ids.drop_first(), j);
    }
}

/// No cross-wiring: when responses with ids `ids` arrive in any order, the
/// delivery for the response at position `k` — the first bearing its id — is
/// exactly the entry that was registered under that id, no matter what other
/// responses came before it.
pub proof fn lemma_no_cross_wiring(s: Seq<(u64, PendingEntry)>, ids: Seq<u64>, k: int)
    requires
        0 <= k < ids.len(),
        forall|m: int| 0 <= m < k ==> #[trigger] ids[m] != ids[k],
    ensures
        spec_delivery(s, ids, k) == spec_plookup(s, ids[k]),
{
    assert(forall|m: int| 0 <= m < ids.take(k).len() ==> #[trigger] ids.take(k)[m] != ids[k]);
    lemma_resolve_seq_preserves(s, ids.take(k), ids[k]);
}

} // verus!
