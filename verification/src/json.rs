//! The library's own model of a JSON document.
//!
//! Protocol logic in this crate never reads an outside parser's value type
//! directly: the trusted codec converts to and from this enum, and every
//! decision the gateway makes is a verified function over it.
//!
//! Numbers the protocol itself produces (request ids are small counters)
//! are modeled as signed 64-bit integers; any other number — fractional,
//! or beyond that range — is carried as its literal text, so payloads
//! pass through the gateway unchanged.

use vstd::prelude::*;
use crate::strutil::str_eq;

verus! {

/// A JSON value: the unit of every message the gateway handles.
#[derive(Debug, PartialEq)]
pub enum JsonValue {
    Null,
    Bool(bool),
    Int(i64),
    /// A number that is not a signed 64-bit integer, as its literal text.
    Num(String),
    Str(String),
    Arr(Vec<JsonValue>),
    Obj(Vec<(String, JsonValue)>),
}

/// The value bound to `key` in an association list, first binding wins.
pub open spec fn spec_lookup(pairs: Seq<(String, JsonValue)>, key: Seq<char>) -> Option<JsonValue>
    decreases pairs.len(),
{
    if pairs.len() == 0 {
        None
    } else if pairs[0].0@ == key {
        Some(pairs[0].1)
    } else {
        spec_lookup(pairs.drop_first(), key)
    }
}

/// No binding of `key` anywhere in `pairs`.
pub open spec fn spec_key_absent(pairs: Seq<(String, JsonValue)>, key: Seq<char>) -> bool {
    forall|j: int| 0 <= j < pairs.len() ==> #[trigger] pairs[j].0@ != key
}

pub proof fn lemma_absent_lookup_none(pairs: Seq<(String, JsonValue)>, key: Seq<char>)
    requires
        spec_key_absent(pairs, key),
    ensures
        spec_lookup(pairs, key) is None,
    decreases pairs.len(),
{
    if pairs.len() > 0 {
        assert(pairs[0].0@ != key);
        lemma_absent_lookup_none(pairs.drop_first(), key);
    }
}

/// Appending a binding does not shadow existing ones.
pub proof fn lemma_lookup_push(pairs: Seq<(String, JsonValue)>, p: (String, JsonValue), k: Seq<char>)
    ensures
        spec_lookup(pairs.push(p), k) == (if spec_lookup(pairs, k) is Some {
            spec_lookup(pairs, k)
        } else if p.0@ == k {
            Some(p.1)
        } else {
            None::<JsonValue>
        }),
    decreases pairs.len(),
{
    if pairs.len() == 0 {
        assert(pairs.push(p)[0] == p);
        assert(pairs.push(p).drop_first() =~= Seq::<(String, JsonValue)>::empty());
        assert(spec_lookup(pairs, k) is None);
        if p.0@ == k {
            assert(spec_lookup(pairs.push(p), k) == Some(p.1));
        } else {
            assert(spec_lookup(pairs.push(p), k) == spec_lookup(
                pairs.push(p).drop_first(),
                k,
            ));
            assert(spec_lookup(pairs.push(p), k) is None);
        }
    } else {
        assert(pairs.push(p)[0] == pairs[0]);
        assert(pairs.push(p).drop_first() =~= pairs.drop_first().push(p));
        lemma_lookup_push(pairs.drop_first(), p, k);
        if pairs[0].0@ == k {
            assert(spec_lookup(pairs.push(p), k) == Some(pairs[0].1));
            assert(spec_lookup(pairs, k) == Some(pairs[0].1));
        } else {
            assert(spec_lookup(pairs.push(p), k) == spec_lookup(
                pairs.drop_first().push(p),
                k,
            ));
            assert(spec_lookup(pairs, k) == spec_lookup(pairs.drop_first(), k));
        }
    }
}

/// Overwriting the first binding of a key changes only that key's value.
pub proof fn lemma_lookup_update(
    pairs: Seq<(String, JsonValue)>,
    i: int,
    val: JsonValue,
    k: Seq<char>,
)
    requires
        0 <= i < pairs.len(),
        forall|j: int| 0 <= j < i ==> #[trigger] pairs[j].0@ != pairs[i].0@,
    ensures
        spec_lookup(pairs.update(i, (pairs[i].0, val)), pairs[i].0@) == Some(val),
        k != pairs[i].0@ ==> spec_lookup(pairs.update(i, (pairs[i].0, val)), k) == spec_lookup(
            pairs,
            k,
        ),
    decreases i,
{
    let up = pairs.update(i, (pairs[i].0, val));
    if i == 0 {
        assert(up[0] == (pairs[0].0, val));
        assert(up.drop_first() =~= pairs.drop_first());
    } else {
        assert(up[0] == pairs[0]);
        assert(up.drop_first() =~= pairs.drop_first().update(i - 1, (pairs[i].0, val)));
        assert(pairs.drop_first()[i - 1] == pairs[i]);
        lemma_lookup_update(pairs.drop_first(), i - 1, val, k);
    }
}

/// Removing a binding of `key` leaves every other key's lookup unchanged.
pub proof fn lemma_lookup_remove(pairs: Seq<(String, JsonValue)>, i: int, k: Seq<char>)
    requires
        0 <= i < pairs.len(),
        k != pairs[i].0@,
    ensures
        spec_lookup(pairs.remove(i), k) == spec_lookup(pairs, k),
    decreases i,
{
    let rm = pairs.remove(i);
    if i == 0 {
        assert(rm =~= pairs.drop_first());
    } else {
        assert(rm[0] == pairs[0]);
        assert(rm.drop_first() =~= pairs.drop_first().remove(i - 1));
        assert(pairs.drop_first()[i - 1] == pairs[i]);
        lemma_lookup_remove(pairs.drop_first(), i - 1, k);
    }
}

impl JsonValue {
    /// What `get` returns: the binding of `key` when the value is an object.
    pub open spec fn spec_get(&self, key: Seq<char>) -> Option<JsonValue> {
        match self {
            JsonValue::Obj(pairs) => spec_lookup(pairs@, key),
            _ => None,
        }
    }

    pub open spec fn spec_is_object(&self) -> bool {
        self is Obj
    }

    /// Looks a field up when this value is a JSON object.
    pub fn get<'a>(&'a self, key: &str) -> (r: Option<&'a JsonValue>)
        ensures
            match r {
                Some(v) => self.spec_get(key@) == Some(*v),
                None => self.spec_get(key@) is None,
            },
    {
        match self {
            JsonValue::Obj(pairs) => {
                let n = pairs.len();
                let mut i: usize = 0;
                proof {
                    assert(pairs@.skip(0) =~= pairs@);
                }
                while i < n
                    invariant
                        n == pairs.len(),
                        i <= n,
                        self.spec_get(key@) == spec_lookup(pairs@, key@),
                        spec_lookup(pairs@, key@) == spec_lookup(pairs@.skip(i as int), key@),
                    decreases n - i,
                {
                    proof {
                        assert(pairs@.skip(i as int)[0] == pairs@[i as int]);
                        assert(pairs@.skip(i as int).drop_first() =~= pairs@.skip(i + 1));
                    }
                    if str_eq(pairs[i].0.as_str(), key) {
                        proof {
                            assert(pairs@.skip(i as int).len() > 0);
                            assert(pairs@.skip(i as int)[0].0@ == key@);
                            assert(spec_lookup(pairs@.skip(i as int), key@) == Some(
                                pairs@.skip(i as int)[0].1,
                            ));
                        }
                        return Some(&pairs[i].1);
                    }
                    i += 1;
                }
                proof {
                    assert(pairs@.skip(n as int) =~= Seq::<(String, JsonValue)>::empty());
                }
                None
            },
            _ => None,
        }
    }

    pub fn is_object(&self) -> (r: bool)
        ensures
            r == self.spec_is_object(),
    {
        match self {
            JsonValue::Obj(_) => true,
            _ => false,
        }
    }

    pub open spec fn spec_is_null(&self) -> bool {
        self is Null
    }

    pub fn is_null(&self) -> (r: bool)
        ensures
            r == self.spec_is_null(),
    {
        match self {
            JsonValue::Null => true,
            _ => false,
        }
    }

    /// The string content when this value is a JSON string.
    pub open spec fn spec_as_str(&self) -> Option<Seq<char>> {
        match self {
            JsonValue::Str(s) => Some(s@),
            _ => None,
        }
    }

    pub fn as_str<'a>(&'a self) -> (r: Option<&'a String>)
        ensures
            match r {
                Some(s) => self.spec_as_str() == Some(s@),
                None => self.spec_as_str() is None,
            },
    {
        match self {
            JsonValue::Str(s) => Some(s),
            _ => None,
        }
    }

    pub open spec fn spec_as_int(&self) -> Option<i64> {
        match self {
            JsonValue::Int(n) => Some(*n),
            _ => None,
        }
    }

    pub fn as_int(&self) -> (r: Option<i64>)
        ensures
            r == self.spec_as_int(),
    {
        match self {
            JsonValue::Int(n) => Some(*n),
            _ => None,
        }
    }
}

/// Replaces the first binding of `key` in `pairs`, or appends one.
fn assoc_set(pairs: Vec<(String, JsonValue)>, key: String, val: JsonValue) -> (r: Vec<
    (String, JsonValue),
>)
    ensures
        spec_lookup(r@, key@) == Some(val),
        forall|k: Seq<char>| k != key@ ==> spec_lookup(r@, k) == spec_lookup(pairs@, k),
{
    let mut ps = pairs;
    let n = ps.len();
    let mut i: usize = 0;
    while i < n
        invariant
            ps@ == pairs@,
            n == ps.len(),
            i <= n,
            forall|j: int| 0 <= j < i ==> #[trigger] ps@[j].0@ != key@,
        decreases n - i,
    {
        if str_eq(ps[i].0.as_str(), key.as_str()) {
            let name = ps.remove(i);
            ps.insert(i, (name.0, val));
            proof {
                assert(ps@ =~= pairs@.update(i as int, (pairs@[i as int].0, val)));
                lemma_lookup_update(pairs@, i as int, val, key@);
                assert forall|k: Seq<char>| k != key@ implies spec_lookup(ps@, k) == spec_lookup(
                    pairs@,
                    k,
                ) by {
                    lemma_lookup_update(pairs@, i as int, val, k);
                }
                assert(pairs@[i as int].0@ == key@);
            }
            return ps;
        }
        i += 1;
    }
    let ghost gkey = key@;
    let ghost gval = val;
    ps.push((key, val));
    proof {
        lemma_absent_lookup_none(pairs@, gkey);
        lemma_lookup_push(pairs@, (ps@[pairs@.len() as int].0, gval), gkey);
        assert(ps@ =~= pairs@.push(ps@[pairs@.len() as int]));
        assert forall|k: Seq<char>| k != gkey implies spec_lookup(ps@, k) == spec_lookup(
            pairs@,
            k,
        ) by {
            lemma_lookup_push(pairs@, ps@[pairs@.len() as int], k);
        }
    }
    ps
}

/// Binds `key` to `val` inside an object value, replacing the first existing
/// binding or appending a new one; a non-object value is left unchanged.
pub fn obj_set(v: JsonValue, key: String, val: JsonValue) -> (r: JsonValue)
    ensures
        v.spec_is_object() ==> {
            &&& r.spec_is_object()
            &&& r.spec_get(key@) == Some(val)
            &&& forall|k: Seq<char>| k != key@ ==> r.spec_get(k) == v.spec_get(k)
        },
        !v.spec_is_object() ==> r == v,
{
    match v {
        JsonValue::Obj(pairs) => JsonValue::Obj(assoc_set(pairs, key, val)),
        other => other,
    }
}

/// Removes every binding of `key` from `pairs`; hands back the first
/// removed binding's value.
fn assoc_take(pairs: Vec<(String, JsonValue)>, key: &str) -> (r: (
    Vec<(String, JsonValue)>,
    Option<JsonValue>,
))
    ensures
        spec_lookup(r.0@, key@) is None,
        forall|k: Seq<char>| k != key@ ==> spec_lookup(r.0@, k) == spec_lookup(pairs@, k),
        r.1 == spec_lookup(pairs@, key@),
{
    let mut ps = pairs;
    let mut out: Option<JsonValue> = None;
    let mut i: usize = 0;
    while i < ps.len()
        invariant
            i <= ps.len(),
            forall|j: int| 0 <= j < i ==> #[trigger] ps@[j].0@ != key@,
            out is Some ==> spec_lookup(pairs@, key@) == out,
            out is None ==> spec_lookup(ps@, key@) == spec_lookup(pairs@, key@),
            forall|k: Seq<char>| k != key@ ==> spec_lookup(ps@, k) == spec_lookup(pairs@, k),
        decreases ps.len() - i,
    {
        if str_eq(ps[i].0.as_str(), key) {
            let ghost before = ps@;
            let removed = ps.remove(i);
            proof {
                assert(before[i as int].0@ == key@);
                lemma_first_match_lookup(before, i as int);
                assert forall|k: Seq<char>| k != key@ implies spec_lookup(ps@, k) == spec_lookup(
                    before,
                    k,
                ) by {
                    lemma_lookup_remove(before, i as int, k);
                }
            }
            if out.is_none() {
                out = Some(removed.1);
            }
        } else {
            i += 1;
        }
    }
    proof {
        lemma_absent_lookup_none(ps@, key@);
        if out is None {
            assert(spec_lookup(pairs@, key@) is None);
        }
    }
    (ps, out)
}

/// Removes every binding of `key` from an object value and hands back the
/// remaining value together with the first removed binding's value; a
/// non-object value is handed back unchanged.
pub fn obj_take(v: JsonValue, key: &str) -> (r: (JsonValue, Option<JsonValue>))
    ensures
        v.spec_is_object() ==> {
            &&& r.0.spec_is_object()
            &&& r.0.spec_get(key@) is None
            &&& forall|k: Seq<char>| k != key@ ==> r.0.spec_get(k) == v.spec_get(k)
            &&& r.1 == v.spec_get(key@)
        },
        !v.spec_is_object() ==> r.0 == v && r.1 is None,
{
    match v {
        JsonValue::Obj(pairs) => {
            let (ps, out) = assoc_take(pairs, key);
            (JsonValue::Obj(ps), out)
        },
        other => (other, None),
    }
}

/// Structural equality of JSON values: the same shape, the same scalar
/// values, the same text. Two values that are equal by this relation
/// serialize identically.
pub open spec fn spec_jeq(a: JsonValue, b: JsonValue) -> bool
    decreases a,
{
    match (a, b) {
        (JsonValue::Null, JsonValue::Null) => true,
        (JsonValue::Bool(x), JsonValue::Bool(y)) => x == y,
        (JsonValue::Int(x), JsonValue::Int(y)) => x == y,
        (JsonValue::Num(x), JsonValue::Num(y)) => x@ == y@,
        (JsonValue::Str(x), JsonValue::Str(y)) => x@ == y@,
        (JsonValue::Arr(x), JsonValue::Arr(y)) => x@.len() == y@.len() && (forall|i: int|
            0 <= i < x@.len() ==> spec_jeq(#[trigger] x@[i], y@[i])),
        (JsonValue::Obj(x), JsonValue::Obj(y)) => x@.len() == y@.len() && (forall|i: int|
            0 <= i < x@.len() ==> (#[trigger] x@[i]).0@ == y@[i].0@ && spec_jeq(
                x@[i].1,
                y@[i].1,
            )),
        _ => false,
    }
}

/// Pairwise structural equality of two sequences of JSON values.
pub open spec fn spec_jeq_seq(a: Seq<JsonValue>, b: Seq<JsonValue>) -> bool {
    a.len() == b.len() && forall|i: int| 0 <= i < a.len() ==> spec_jeq(#[trigger] a[i], b[i])
}

/// A structurally equal copy of a JSON value.
pub fn json_clone(v: &JsonValue) -> (r: JsonValue)
    ensures
        spec_jeq(r, *v),
    decreases *v,
{
    broadcast use vstd::std_specs::vec::group_vec_axioms;

    match v {
        JsonValue::Null => JsonValue::Null,
        JsonValue::Bool(b) => JsonValue::Bool(*b),
        JsonValue::Int(n) => JsonValue::Int(*n),
        JsonValue::Num(s) => JsonValue::Num(s.clone()),
        JsonValue::Str(s) => JsonValue::Str(s.clone()),
        JsonValue::Arr(items) => {
            let n = items.len();
            let mut out: Vec<JsonValue> = Vec::new();
            let mut i: usize = 0;
            while i < n
                invariant
                    n == items@.len(),
                    i <= n,
                    out@.len() == i,
                    decreases_to!(*v => *items),
                    forall|j: int| 0 <= j < i ==> spec_jeq(#[trigger] out@[j], items@[j]),
                decreases n - i,
            {
                out.push(json_clone(&items[i]));
                i += 1;
            }
            JsonValue::Arr(out)
        },
        JsonValue::Obj(pairs) => {
            let n = pairs.len();
            let mut out: Vec<(String, JsonValue)> = Vec::new();
            let mut i: usize = 0;
            while i < n
                invariant
                    n == pairs@.len(),
                    i <= n,
                    out@.len() == i,
                    decreases_to!(*v => *pairs),
                    forall|j: int|
                        0 <= j < i ==> (#[trigger] out@[j]).0@ == pairs@[j].0@ && spec_jeq(
                            out@[j].1,
                            pairs@[j].1,
                        ),
                decreases n - i,
            {
                let key = pairs[i].0.clone();
                let val = json_clone(&pairs[i].1);
                out.push((key, val));
                i += 1;
            }
            JsonValue::Obj(out)
        },
    }
}

/// The first binding of a key is what lookup returns.
pub proof fn lemma_first_match_lookup(pairs: Seq<(String, JsonValue)>, i: int)
    requires
        0 <= i < pairs.len(),
        forall|j: int| 0 <= j < i ==> #[trigger] pairs[j].0@ != pairs[i].0@,
    ensures
        spec_lookup(pairs, pairs[i].0@) == Some(pairs[i].1),
    decreases i,
{
    if i > 0 {
        assert(pairs.drop_first()[i - 1] == pairs[i]);
        lemma_first_match_lookup(pairs.drop_first(), i - 1);
    }
}

} // verus!
