//! `JsonValue`: a JSON document held as plain values, so that the structure
//! and record formats built on JSON can be read and written by verified code.

use vstd::prelude::*;
use crate::collections::{keys_sorted, SortedMap};
use crate::text::{owned, str_eq};


verus! {

/// A JSON value. Numbers keep their decimal text; object members keep their order.
#[derive(Debug, PartialEq, Eq)]
pub enum JsonValue {
    Null,
    Bool(bool),
    Number(String),
    String(String),
    Array(Vec<JsonValue>),
    Object(Vec<(String, JsonValue)>),
}

impl JsonValue {
    /// Whether the value is `null`.
    pub fn is_null(&self) -> (b: bool)
        ensures
            b == (*self is Null),
    {
        match self {
            JsonValue::Null => true,
            _ => false,
        }
    }
}

/// The value of the first member named `key`.
pub open spec fn first_member(members: Seq<(String, JsonValue)>, key: Seq<char>) -> Option<JsonValue>
    decreases members.len(),
{
    if members.len() == 0 {
        None
    } else if members[0].0@ == key {
        Some(members[0].1)
    } else {
        first_member(members.drop_first(), key)
    }
}

/// The value of the first member named `key` of an object.
pub open spec fn spec_get(v: JsonValue, key: Seq<char>) -> Option<JsonValue> {
    match v {
        JsonValue::Object(members) => first_member(members@, key),
        _ => None,
    }
}

/// The text of a string value.
pub open spec fn spec_as_str(v: Option<JsonValue>) -> Option<Seq<char>> {
    match v {
        Some(JsonValue::String(s)) => Some(s@),
        _ => None,
    }
}

/// Every object in `v`, at any depth, has its members in increasing key order.
pub open spec fn is_canonical(v: JsonValue) -> bool
    decreases v,
{
    match v {
        JsonValue::Array(items) => forall|i: int| 0 <= i < items@.len() ==> is_canonical(#[trigger] items@[i]),
        JsonValue::Object(members) => keys_sorted(members@) && forall|i: int| 0 <= i < members@.len()
            ==> is_canonical(#[trigger] members@[i].1),
        _ => true,
    }
}

impl JsonValue {
    /// The value of the first member named `key`, when this is an object that has one.
    pub fn get(&self, key: &str) -> (r: Option<&JsonValue>)
        ensures
            match r { Some(v) => Some(*v), None => None } == spec_get(*self, key@),
    {
        match self {
            JsonValue::Object(members) => {
                let mut i: usize = 0;
                proof {
                    assert(members@.skip(0) =~= members@);
                }
                while i < members.len()
                    invariant
                        i <= members@.len(),
                        *self == JsonValue::Object(*members),
                        first_member(members@, key@) == first_member(members@.skip(i as int), key@),
                    decreases members@.len() - i,
                {
                    proof {
                        assert(members@.skip(i as int)[0] == members@[i as int]);
                        assert(members@.skip(i as int).drop_first() =~= members@.skip(i + 1));
                    }
                    if str_eq(members[i].0.as_str(), key) {
                        proof {
                            assert(first_member(members@.skip(i as int), key@) == Some(members@[i as int].1));
                        }
                        return Some(&members[i].1);
                    }
                    i += 1;
                }
                None
            },
            _ => None,
        }
    }

    /// The text of this value, when it is a string.
    pub fn as_str(&self) -> (r: Option<&str>)
        ensures
            match r { Some(s) => Some(s@), None => None } == spec_as_str(Some(*self)),
    {
        match self {
            JsonValue::String(s) => Some(s.as_str()),
            _ => None,
        }
    }

    /// The items of this value, when it is an array.
    pub fn as_array(&self) -> (r: Option<&Vec<JsonValue>>)
        ensures
            match r { Some(a) => *self == JsonValue::Array(*a), None => !(*self is Array) },
    {
        match self {
            JsonValue::Array(a) => Some(a),
            _ => None,
        }
    }

    /// A string value.
    pub fn text(s: &str) -> (v: JsonValue)
        ensures
            v matches JsonValue::String(t) && t@ == s@,
    {
        JsonValue::String(owned(s))
    }

}

/// `a` and `b` are the same JSON value: same kind, same text, same items
/// and members in the same order.
pub open spec fn json_same(a: JsonValue, b: JsonValue) -> bool
    decreases a,
{
    match (a, b) {
        (JsonValue::Null, JsonValue::Null) => true,
        (JsonValue::Bool(x), JsonValue::Bool(y)) => x == y,
        (JsonValue::Number(x), JsonValue::Number(y)) => x@ == y@,
        (JsonValue::String(x), JsonValue::String(y)) => x@ == y@,
        (JsonValue::Array(x), JsonValue::Array(y)) => x@.len() == y@.len() && forall|i: int|
            0 <= i < x@.len() ==> json_same(#[trigger] x@[i], y@[i]),
        (JsonValue::Object(x), JsonValue::Object(y)) => x@.len() == y@.len() && forall|i: int|
            0 <= i < x@.len() ==> (#[trigger] x@[i]).0@ == y@[i].0@ && json_same(x@[i].1, y@[i].1),
        _ => false,
    }
}

impl JsonValue {
    /// A copy of the value.
    pub fn duplicate(&self) -> (r: JsonValue)
        ensures
            (*self is Null) == (r is Null),
            (*self is String) == (r is String),
            *self matches JsonValue::String(s) ==> (r matches JsonValue::String(t) && t@ == s@),
            json_same(*self, r),
        decreases self,
    {
        match self {
            JsonValue::Null => JsonValue::Null,
            JsonValue::Bool(b) => JsonValue::Bool(*b),
            JsonValue::Number(n) => JsonValue::Number(n.clone()),
            JsonValue::String(s) => JsonValue::String(s.clone()),
            JsonValue::Array(items) => {
                let mut out: Vec<JsonValue> = Vec::new();
                let mut i: usize = 0;
                while i < items.len()
                    invariant
                        i <= items@.len(),
                        *self == JsonValue::Array(*items),
                        out@.len() == i,
                        forall|j: int| 0 <= j < i ==> json_same(#[trigger] items@[j], out@[j]),
                    decreases items@.len() - i,
                {
                    proof {
                        assert(decreases_to!(*self => (*self)->Array_0));
                        assert(decreases_to!(*items => items[i as int]));
                    }
                    out.push(items[i].duplicate());
                    i += 1;
                }
                JsonValue::Array(out)
            },
            JsonValue::Object(members) => {
                let mut out: Vec<(String, JsonValue)> = Vec::new();
                let mut i: usize = 0;
                while i < members.len()
                    invariant
                        i <= members@.len(),
                        *self == JsonValue::Object(*members),
                        out@.len() == i,
                        forall|j: int| 0 <= j < i ==> (#[trigger] members@[j]).0@ == out@[j].0@ && json_same(members@[j].1, out@[j].1),
                    decreases members@.len() - i,
                {
                    proof {
                        assert(decreases_to!(*self => (*self)->Object_0));
                        assert(decreases_to!(*members => members[i as int]));
                        assert(decreases_to!(members[i as int] => members[i as int].1));
                    }
                    let v = members[i].1.duplicate();
                    out.push((members[i].0.clone(), v));
                    i += 1;
                }
                JsonValue::Object(out)
            },
        }
    }
}

/// Member `i` is the last one of `members` named `key`.
pub open spec fn is_last_member(members: Seq<(String, JsonValue)>, i: int, key: Seq<char>) -> bool {
    &&& 0 <= i < members.len()
    &&& members[i].0@ == key
    &&& forall|j: int| i < j < members.len() ==> (#[trigger] members[j]).0@ != key
}

/// The index of the last member of `members` named `key`; -1 when none is.
pub open spec fn last_index(members: Seq<(String, JsonValue)>, key: Seq<char>) -> int
    decreases members.len(),
{
    if members.len() == 0 {
        -1
    } else if members.last().0@ == key {
        members.len() - 1
    } else {
        last_index(members.drop_last(), key)
    }
}

/// The last member named `key` is the one that `last_index` finds.
proof fn lemma_last_index(members: Seq<(String, JsonValue)>, a: int, key: Seq<char>)
    requires
        is_last_member(members, a, key),
    ensures
        last_index(members, key) == a,
    decreases members.len(),
{
    if a < members.len() - 1 {
        let front = members.drop_last();
        assert(members[members.len() - 1].0@ != key);
        assert forall|j: int| a < j < front.len() implies (#[trigger] front[j]).0@ != key by {
            assert(front[j] == members[j]);
        }
        assert(front[a] == members[a]);
        lemma_last_index(front, a, key);
    }
}

/// Some member of `entries` is named `key`.
pub open spec fn has_key(entries: Seq<(String, JsonValue)>, key: Seq<char>) -> bool {
    exists|j: int| 0 <= j < entries.len() && entries[j].0@ == key
}

/// `r` is `v` with the members of every object, at any depth, in increasing
/// key order, each key once with the value of its last member.
pub open spec fn canonical_of(v: JsonValue, r: JsonValue) -> bool
    decreases v,
{
    match v {
        JsonValue::Null => r is Null,
        JsonValue::Bool(b) => r == JsonValue::Bool(b),
        JsonValue::Number(n) => r matches JsonValue::Number(x) && x@ == n@,
        JsonValue::String(t) => r matches JsonValue::String(x) && x@ == t@,
        JsonValue::Array(items) => r matches JsonValue::Array(out) && out@.len() == items@.len()
            && forall|i: int| 0 <= i < items@.len() ==> canonical_of(#[trigger] items@[i], out@[i]),
        JsonValue::Object(members) => r matches JsonValue::Object(entries)
            && (forall|i: int| 0 <= i < members@.len() ==> #[trigger] has_key(entries@, members@[i].0@))
            && (forall|j: int| 0 <= j < entries@.len() ==> 0 <= #[trigger] last_index(members@, entries@[j].0@) < members@.len()
                && canonical_of(members@[last_index(members@, entries@[j].0@)].1, entries@[j].1)),
    }
}

/// The value with the members of every object, at any depth, in increasing
/// key order (for a key given twice, the later member wins).
pub fn canonicalize(v: &JsonValue) -> (r: JsonValue)
    ensures
        is_canonical(r),
        canonical_of(*v, r),
    decreases v,
{
    match v {
        JsonValue::Array(items) => {
            let mut out: Vec<JsonValue> = Vec::new();
            let mut i: usize = 0;
            while i < items.len()
                invariant
                    i <= items@.len(),
                    out@.len() == i,
                    forall|k: int| 0 <= k < i ==> is_canonical(#[trigger] out@[k]),
                    forall|k: int| 0 <= k < i ==> canonical_of(items@[k], #[trigger] out@[k]),
                    *v == JsonValue::Array(*items),
                decreases items@.len() - i,
            {
                proof {
                    assert(decreases_to!(*v => (*v)->Array_0));
                    assert(decreases_to!(*items => items[i as int]));
                }
                let c = canonicalize(&items[i]);
                out.push(c);
                i += 1;
            }
            let r = JsonValue::Array(out);
            proof {
                assert forall|k: int| 0 <= k < out@.len() implies is_canonical(#[trigger] out@[k]) by {}
                assert(is_canonical(r));
                assert forall|k: int| 0 <= k < items@.len() implies canonical_of(#[trigger] items@[k], out@[k]) by {}
                assert(canonical_of(*v, r));
            }
            r
        },
        JsonValue::Object(members) => {
            let mut sorted: SortedMap<JsonValue> = SortedMap::new();
            let mut i: usize = 0;
            while i < members.len()
                invariant
                    i <= members@.len(),
                    forall|k: Seq<char>| #[trigger] sorted.view().contains_key(k) ==> is_canonical(sorted.view()[k]),
                    forall|k: int| 0 <= k < i ==> sorted.view().contains_key(#[trigger] members@[k].0@),
                    forall|k: Seq<char>| #[trigger] sorted.view().contains_key(k) ==> exists|a: int| #[trigger] is_last_member(
                        members@.take(i as int),
                        a,
                        k,
                    ) && canonical_of(members@[a].1, sorted.view()[k]),
                    *v == JsonValue::Object(*members),
                decreases members@.len() - i,
            {
                proof {
                    assert(decreases_to!(*v => (*v)->Object_0));
                    assert(decreases_to!(*members => members[i as int]));
                    assert(decreases_to!(members[i as int] => members[i as int].1));
                }
                let c = canonicalize(&members[i].1);
                let key = members[i].0.clone();
                let ghost prev = sorted.view();
                sorted.insert(key, c);
                proof {
                    let t = members@.take(i + 1);
                    assert forall|k: Seq<char>| #[trigger] sorted.view().contains_key(k) implies exists|a: int| #[trigger] is_last_member(
                        t,
                        a,
                        k,
                    ) && canonical_of(members@[a].1, sorted.view()[k]) by {
                        if k == members@[i as int].0@ {
                            assert(is_last_member(t, i as int, k));
                        } else {
                            assert(prev.contains_key(k));
                            let a = choose|a: int| #[trigger] is_last_member(members@.take(i as int), a, k)
                                && canonical_of(members@[a].1, prev[k]);
                            assert forall|j: int| a < j < t.len() implies (#[trigger] t[j]).0@ != k by {
                                if j < i {
                                    assert(t[j] == members@.take(i as int)[j]);
                                }
                            }
                            assert(t[a] == members@[a]);
                            assert(is_last_member(t, a, k));
                        }
                    }
                    assert forall|k: int| 0 <= k < i + 1 implies sorted.view().contains_key(#[trigger] members@[k].0@) by {
                        if k < i {
                            assert(prev.contains_key(members@[k].0@));
                        }
                    }
                }
                i += 1;
            }
            proof {
                assert(members@.take(members@.len() as int) =~= members@);
            }
            let ghost m = sorted.view();
            let entries = sorted.into_entries();
            let r = JsonValue::Object(entries);
            proof {
                assert forall|k: int| 0 <= k < entries@.len() implies is_canonical(#[trigger] entries@[k].1) by {
                    assert(m.contains_key(entries@[k].0@));
                }
                assert(is_canonical(r));
                assert forall|a: int| 0 <= a < members@.len() implies #[trigger] has_key(entries@, members@[a].0@) by {
                    assert(m.contains_key(members@[a].0@));
                }
                assert forall|j: int| 0 <= j < entries@.len() implies 0 <= #[trigger] last_index(members@, entries@[j].0@) < members@.len()
                    && canonical_of(members@[last_index(members@, entries@[j].0@)].1, entries@[j].1) by {
                    let k = entries@[j].0@;
                    assert(m.contains_key(k));
                    assert(m[k] == entries@[j].1);
                    let a = choose|a: int| #[trigger] is_last_member(members@.take(members@.len() as int), a, k)
                        && canonical_of(members@[a].1, m[k]);
                    assert(is_last_member(members@, a, k));
                    lemma_last_index(members@, a, k);
                }
                assert(canonical_of(*v, r));
            }
            r
        },
        JsonValue::Null => JsonValue::Null,
        JsonValue::Bool(b) => JsonValue::Bool(*b),
        JsonValue::Number(n) => JsonValue::Number(n.clone()),
        JsonValue::String(t) => JsonValue::String(t.clone()),
    }
}

} // verus!
