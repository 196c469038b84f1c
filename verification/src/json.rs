//! The JSON document model that the library reads and builds.
//!
//! A [`Json`] mirrors a decoded JSON value: numbers keep the three shapes a
//! JSON decoder distinguishes (non-negative integer, negative integer, IEEE-754
//! double given by its bit pattern), and an object is a list of `(key, value)`
//! entries kept in strictly increasing key order, so each key occurs once and
//! the entries come out ordered by key.
//!
//! The mathematical model of a `Json` is a [`JsonV`], reached with `@`.

use vstd::prelude::*;

use crate::text::{chars_lt, lemma_chars_lt_irreflexive, lemma_chars_lt_total, lemma_chars_lt_trans, str_eq, str_lt};

verus! {

/// A JSON number, in the shape a decoder produced it.
#[derive(Clone, Copy, PartialEq, Eq, Structural, Debug)]
pub enum JsonNumber {
    /// An integer in `0..=u64::MAX`.
    PosInt(u64),
    /// An integer in `i64::MIN..0`.
    NegInt(i64),
    /// A double, given by its IEEE-754 bit pattern.
    Float(u64),
}

/// A JSON value.
#[derive(Debug, PartialEq)]
pub enum Json {
    Null,
    Bool(bool),
    Number(JsonNumber),
    Str(String),
    Array(Vec<Json>),
    /// Entries in strictly increasing key order (see [`Json::wf`]).
    Object(Vec<(String, Json)>),
}

/// The mathematical model of a [`Json`].
pub enum JsonV {
    Null,
    Bool(bool),
    Number(JsonNumber),
    Str(Seq<char>),
    Array(Seq<JsonV>),
    Object(Seq<(Seq<char>, JsonV)>),
}

/// The model of one value.
pub open spec fn view_json(j: Json) -> JsonV
    decreases j,
{
    match j {
        Json::Null => JsonV::Null,
        Json::Bool(b) => JsonV::Bool(b),
        Json::Number(n) => JsonV::Number(n),
        Json::Str(s) => JsonV::Str(s@),
        Json::Array(items) => JsonV::Array(
            Seq::new(
                items@.len(),
                |i: int|
                    if 0 <= i < items@.len() {
                        view_json(items@[i])
                    } else {
                        JsonV::Null
                    },
            ),
        ),
        Json::Object(entries) => JsonV::Object(
            Seq::new(
                entries@.len(),
                |i: int|
                    if 0 <= i < entries@.len() {
                        (entries@[i].0@, view_json(entries@[i].1))
                    } else {
                        (Seq::empty(), JsonV::Null)
                    },
            ),
        ),
    }
}

/// The model of a list of object entries.
pub open spec fn view_entries(entries: Seq<(String, Json)>) -> Seq<(Seq<char>, JsonV)> {
    Seq::new(entries.len(), |i: int| (entries[i].0@, view_json(entries[i].1)))
}

/// The model of a list of values.
pub open spec fn view_items(items: Seq<Json>) -> Seq<JsonV> {
    Seq::new(items.len(), |i: int| view_json(items[i]))
}

impl View for Json {
    type V = JsonV;

    open spec fn view(&self) -> JsonV {
        view_json(*self)
    }
}

/// Keys in strictly increasing order (hence each key at most once).
pub open spec fn keys_sorted(entries: Seq<(Seq<char>, JsonV)>) -> bool {
    forall|i: int, j: int|
        0 <= i < j < entries.len() ==> chars_lt(#[trigger] entries[i].0, #[trigger] entries[j].0)
}

/// The value stored under `key`: the first entry with that key.
pub open spec fn lookup(entries: Seq<(Seq<char>, JsonV)>, key: Seq<char>) -> Option<JsonV>
    decreases entries.len(),
{
    if entries.len() == 0 {
        None
    } else if entries[0].0 == key {
        Some(entries[0].1)
    } else {
        lookup(entries.drop_first(), key)
    }
}

/// The member `key` of an object; `None` for a missing key or a non-object.
pub open spec fn member(v: JsonV, key: Seq<char>) -> Option<JsonV> {
    match v {
        JsonV::Object(entries) => lookup(entries, key),
        _ => None,
    }
}

/// The model of an optional value.
pub open spec fn opt_view(v: Option<&Json>) -> Option<JsonV> {
    match v {
        Some(j) => Some(j@),
        None => None,
    }
}

/// Every object, at every depth, keeps its keys in strictly increasing order.
pub open spec fn wf(v: JsonV) -> bool
    decreases v,
{
    match v {
        JsonV::Array(items) => forall|i: int| 0 <= i < items.len() ==> wf(#[trigger] items[i]),
        JsonV::Object(entries) => keys_sorted(entries) && forall|i: int|
            0 <= i < entries.len() ==> wf(#[trigger] entries[i].1),
        _ => true,
    }
}

/// The object whose entries are `entries`, after inserting `key -> value`:
/// an existing entry for `key` is replaced in place, otherwise the entry is
/// added at its place in key order.
pub open spec fn inserted(
    entries: Seq<(Seq<char>, JsonV)>,
    key: Seq<char>,
    value: JsonV,
) -> Seq<(Seq<char>, JsonV)>
    decreases entries.len(),
{
    if entries.len() == 0 {
        seq![(key, value)]
    } else if entries[0].0 == key {
        entries.update(0, (key, value))
    } else if chars_lt(key, entries[0].0) {
        seq![(key, value)] + entries
    } else {
        seq![entries[0]] + inserted(entries.drop_first(), key, value)
    }
}

/// Looking up a key that occurs at index `i` of sorted entries gives that entry.
pub proof fn lemma_lookup_at(entries: Seq<(Seq<char>, JsonV)>, i: int)
    requires
        keys_sorted(entries),
        0 <= i < entries.len(),
    ensures
        lookup(entries, entries[i].0) == Some(entries[i].1),
    decreases i,
{
    if i > 0 {
        lemma_chars_lt_irreflexive(entries[i].0);
        assert(chars_lt(entries[0].0, entries[i].0));
        assert(entries.drop_first()[i - 1] == entries[i]);
        lemma_lookup_at(entries.drop_first(), i - 1);
    }
}

/// A key absent from every entry is not found.
pub proof fn lemma_lookup_absent(entries: Seq<(Seq<char>, JsonV)>, key: Seq<char>)
    requires
        forall|i: int| 0 <= i < entries.len() ==> entries[i].0 != key,
    ensures
        lookup(entries, key) is None,
    decreases entries.len(),
{
    if entries.len() > 0 {
        assert forall|i: int| 0 <= i < entries.drop_first().len() implies entries.drop_first()[i].0
            != key by {
            assert(entries.drop_first()[i] == entries[i + 1]);
        }
        lemma_lookup_absent(entries.drop_first(), key);
    }
}

/// What a lookup finds after an insertion.
pub proof fn lemma_inserted(
    entries: Seq<(Seq<char>, JsonV)>,
    key: Seq<char>,
    value: JsonV,
    other: Seq<char>,
)
    requires
        keys_sorted(entries),
    ensures
        keys_sorted(inserted(entries, key, value)),
        lookup(inserted(entries, key, value), key) == Some(value),
        other != key ==> lookup(inserted(entries, key, value), other) == lookup(entries, other),
        forall|i: int|
            0 <= i < inserted(entries, key, value).len() ==> (#[trigger] inserted(
                entries,
                key,
                value,
            )[i].0 == key || exists|j: int|
                0 <= j < entries.len() && entries[j] == inserted(entries, key, value)[i]),
    decreases entries.len(),
{
    let r = inserted(entries, key, value);
    if entries.len() == 0 {
        assert(r.drop_first() =~= Seq::<(Seq<char>, JsonV)>::empty());
        reveal_with_fuel(lookup, 2);
        assert(other != key ==> lookup(r, other) == lookup(entries, other));
    } else if entries[0].0 == key {
        assert forall|i: int, j: int| 0 <= i < j < r.len() implies chars_lt(
            #[trigger] r[i].0,
            #[trigger] r[j].0,
        ) by {
            assert(r[i].0 == entries[i].0);
            assert(r[j].0 == entries[j].0);
        }
        if other != key {
            assert(r.drop_first() =~= entries.drop_first());
            assert(lookup(r, other) == lookup(entries, other));
        }
        assert forall|i: int| 0 <= i < r.len() implies (#[trigger] r[i].0 == key || exists|j: int|
            0 <= j < entries.len() && entries[j] == r[i]) by {
            if i > 0 {
                assert(entries[i] == r[i]);
            }
        }
    } else if chars_lt(key, entries[0].0) {
        assert forall|i: int, j: int| 0 <= i < j < r.len() implies chars_lt(
            #[trigger] r[i].0,
            #[trigger] r[j].0,
        ) by {
            if i == 0 {
                if j > 1 {
                    lemma_chars_lt_trans(key, entries[0].0, entries[j - 1].0);
                }
            } else {
                assert(r[i] == entries[i - 1]);
                assert(r[j] == entries[j - 1]);
            }
        }
        assert(r.drop_first() =~= entries);
        assert(other != key ==> lookup(r, other) == lookup(entries, other));
        assert forall|i: int| 0 <= i < r.len() implies (#[trigger] r[i].0 == key || exists|j: int|
            0 <= j < entries.len() && entries[j] == r[i]) by {
            if i > 0 {
                assert(entries[i - 1] == r[i]);
            }
        }
    } else {
        let rest = entries.drop_first();
        assert forall|i: int, j: int| 0 <= i < j < rest.len() implies chars_lt(
            #[trigger] rest[i].0,
            #[trigger] rest[j].0,
        ) by {
            assert(rest[i] == entries[i + 1]);
            assert(rest[j] == entries[j + 1]);
        }
        lemma_inserted(rest, key, value, other);
        let tail = inserted(rest, key, value);
        assert(r == seq![entries[0]] + tail);
        lemma_chars_lt_total(key, entries[0].0);
        assert forall|i: int| 0 <= i < tail.len() implies chars_lt(
            entries[0].0,
            #[trigger] tail[i].0,
        ) by {
            if tail[i].0 != key {
                let j = choose|j: int| 0 <= j < rest.len() && rest[j] == tail[i];
                assert(rest[j] == entries[j + 1]);
            }
        }
        assert forall|i: int, j: int| 0 <= i < j < r.len() implies chars_lt(
            #[trigger] r[i].0,
            #[trigger] r[j].0,
        ) by {
            if i == 0 {
                assert(r[j] == tail[j - 1]);
            } else {
                assert(r[i] == tail[i - 1]);
                assert(r[j] == tail[j - 1]);
            }
        }
        assert(r.drop_first() =~= tail);
        assert(other != key ==> lookup(r, other) == lookup(entries, other));
        assert forall|i: int| 0 <= i < r.len() implies (#[trigger] r[i].0 == key || exists|j: int|
            0 <= j < entries.len() && entries[j] == r[i]) by {
            if i == 0 {
                assert(entries[0] == r[0]);
            } else {
                assert(r[i] == tail[i - 1]);
                if tail[i - 1].0 != key {
                    let j = choose|j: int| 0 <= j < rest.len() && rest[j] == tail[i - 1];
                    assert(rest[j] == entries[j + 1]);
                }
            }
        }
    }
}

impl Json {
    /// Whether the value is an object.
    pub fn is_object(&self) -> (r: bool)
        ensures
            r == (self@ is Object),
    {
        match self {
            Json::Object(_) => true,
            _ => false,
        }
    }

    /// The member `key` of an object (`None` for a missing key or a non-object).
    pub fn get(&self, key: &str) -> (r: Option<&Json>)
        ensures
            opt_view(r) == member(self@, key@),
            r matches Some(v) ==> member(self@, key@) == Some(v@),
            r is None ==> member(self@, key@) is None,
    {
        match self {
            Json::Object(entries) => {
                proof {
                    assert(view_json(*self)->Object_0 =~= view_entries(entries@));
                }
                entries_get(entries, key)
            },
            _ => None,
        }
    }

    /// An independent copy with the same model.
    pub fn deep_clone(&self) -> (r: Json)
        ensures
            r@ == self@,
        decreases self,
    {
        match self {
            Json::Null => Json::Null,
            Json::Bool(b) => Json::Bool(*b),
            Json::Number(n) => Json::Number(*n),
            Json::Str(s) => Json::Str(s.clone()),
            Json::Array(items) => {
                let mut out: Vec<Json> = Vec::new();
                let mut i: usize = 0;
                while i < items.len()
                    invariant
                        *self == Json::Array(*items),
                        i <= items@.len(),
                        out@.len() == i,
                        forall|k: int| 0 <= k < i ==> view_json(#[trigger] out@[k]) == view_json(items@[k]),
                    decreases items@.len() - i,
                {
                    proof {
                        assert(decreases_to!(*self => (*self)->Array_0));
                        assert(decreases_to!(*items => items@));
                        assert(decreases_to!(items@ => items@[i as int]));
                    }
                    out.push(items[i].deep_clone());
                    i = i + 1;
                }
                proof {
                    assert(view_json(Json::Array(out)) == view_json(*self)) by {
                        assert(view_json(Json::Array(out))->Array_0 =~= view_json(*self)->Array_0);
                    }
                }
                Json::Array(out)
            },
            Json::Object(entries) => {
                let mut out: Vec<(String, Json)> = Vec::new();
                let mut i: usize = 0;
                while i < entries.len()
                    invariant
                        *self == Json::Object(*entries),
                        i <= entries@.len(),
                        out@.len() == i,
                        forall|k: int|
                            0 <= k < i ==> (#[trigger] out@[k]).0@ == entries@[k].0@ && view_json(
                                out@[k].1,
                            ) == view_json(entries@[k].1),
                    decreases entries@.len() - i,
                {
                    let key = entries[i].0.clone();
                    proof {
                        assert(decreases_to!(*self => (*self)->Object_0));
                        assert(decreases_to!(*entries => entries@));
                        assert(decreases_to!(entries@ => entries@[i as int]));
                        assert(decreases_to!(entries@[i as int] => entries@[i as int].1));
                    }
                    let value = entries[i].1.deep_clone();
                    out.push((key, value));
                    i = i + 1;
                }
                proof {
                    assert(view_json(Json::Object(out)) == view_json(*self)) by {
                        assert(view_json(Json::Object(out))->Object_0 =~= view_json(
                            *self,
                        )->Object_0);
                    }
                }
                Json::Object(out)
            },
        }
    }
}


/// An independent copy of a list of object entries.
pub fn clone_entries(entries: &Vec<(String, Json)>) -> (r: Vec<(String, Json)>)
    ensures
        view_entries(r@) == view_entries(entries@),
{
    let mut out: Vec<(String, Json)> = Vec::new();
    let mut i: usize = 0;
    while i < entries.len()
        invariant
            i <= entries@.len(),
            out@.len() == i,
            forall|k: int|
                0 <= k < i ==> (#[trigger] out@[k]).0@ == entries@[k].0@ && view_json(out@[k].1)
                    == view_json(entries@[k].1),
        decreases entries@.len() - i,
    {
        let key = entries[i].0.clone();
        let value = entries[i].1.deep_clone();
        out.push((key, value));
        i = i + 1;
    }
    assert(view_entries(out@) =~= view_entries(entries@));
    out
}

/// An independent copy of a list of values.
pub fn clone_items(items: &Vec<Json>) -> (r: Vec<Json>)
    ensures
        view_items(r@) == view_items(items@),
{
    let mut out: Vec<Json> = Vec::new();
    let mut i: usize = 0;
    while i < items.len()
        invariant
            i <= items@.len(),
            out@.len() == i,
            forall|k: int| 0 <= k < i ==> view_json(#[trigger] out@[k]) == view_json(items@[k]),
        decreases items@.len() - i,
    {
        out.push(items[i].deep_clone());
        i = i + 1;
    }
    assert(view_items(out@) =~= view_items(items@));
    out
}

/// The model of an array value is the model of its items.
pub proof fn lemma_view_array(items: Vec<Json>)
    ensures
        view_json(Json::Array(items)) == JsonV::Array(view_items(items@)),
{
    assert(view_json(Json::Array(items))->Array_0 =~= view_items(items@));
}

/// The model of an object value is the model of its entries.
pub proof fn lemma_view_object(entries: Vec<(String, Json)>)
    ensures
        view_json(Json::Object(entries)) == JsonV::Object(view_entries(entries@)),
{
    assert(view_json(Json::Object(entries))->Object_0 =~= view_entries(entries@));
}

/// A string value.
pub fn json_str(s: &str) -> (r: Json)
    ensures
        r@ == JsonV::Str(s@),
{
    let mut v = String::new();
    v.append(s);
    Json::Str(v)
}


/// An owned copy of `s`.
pub fn owned(s: &str) -> (r: String)
    ensures
        r@ == s@,
{
    let mut v = String::new();
    v.append(s);
    v
}

/// Insert `key -> value` into an object's entries.
pub fn put(entries: &mut Vec<(String, Json)>, key: &str, value: Json)
    ensures
        view_entries(final(entries)@) == inserted(view_entries(old(entries)@), key@, value@),
{
    entries_insert(entries, owned(key), value);
}

/// The object holding `entries`.
pub fn object_of(entries: Vec<(String, Json)>) -> (r: Json)
    ensures
        r@ == JsonV::Object(view_entries(entries@)),
{
    proof {
        lemma_view_object(entries);
    }
    Json::Object(entries)
}

/// The array holding `items`.
pub fn array_of(items: Vec<Json>) -> (r: Json)
    ensures
        r@ == JsonV::Array(view_items(items@)),
{
    proof {
        lemma_view_array(items);
    }
    Json::Array(items)
}

/// The value stored under `key` among `entries`.
pub fn entries_get<'a>(entries: &'a Vec<(String, Json)>, key: &str) -> (r: Option<&'a Json>)
    ensures
        r matches Some(v) ==> lookup(view_entries(entries@), key@) == Some(v@),
        r is None ==> lookup(view_entries(entries@), key@) is None,
{
    let ghost full = view_entries(entries@);
    let mut i: usize = 0;
    proof {
        assert(full.skip(0) =~= full);
    }
    while i < entries.len()
        invariant
            i <= entries@.len(),
            full == view_entries(entries@),
            lookup(full, key@) == lookup(full.skip(i as int), key@),
        decreases entries@.len() - i,
    {
        let ghost rest = full.skip(i as int);
        assert(rest[0] == full[i as int]);
        if str_eq(entries[i].0.as_str(), key) {
            return Some(&entries[i].1);
        }
        assert(rest.drop_first() =~= full.skip(i + 1));
        i = i + 1;
    }
    None
}

/// Insert `key -> value`, replacing an existing entry for `key` or adding the
/// entry at its place in key order.
pub fn entries_insert(entries: &mut Vec<(String, Json)>, key: String, value: Json)
    ensures
        view_entries(final(entries)@) == inserted(view_entries(old(entries)@), key@, value@),
{
    let ghost old_v = view_entries(entries@);
    let mut i: usize = 0;
    while i < entries.len()
        invariant
            i <= entries@.len(),
            entries@ == old(entries)@,
            old_v == view_entries(entries@),
            forall|k: int| 0 <= k < i ==> #[trigger] old_v[k].0 != key@ && !chars_lt(key@, old_v[k].0),
        decreases entries@.len() - i,
    {
        if str_eq(entries[i].0.as_str(), key.as_str()) {
            proof {
                lemma_inserted_prefix(old_v, key@, value@, i as int);
            }
            entries.set(i, (key, value));
            proof {
                assert(view_entries(entries@) =~= inserted(old_v, key@, value@));
            }
            return;
        }
        if str_lt(key.as_str(), entries[i].0.as_str()) {
            proof {
                lemma_inserted_prefix(old_v, key@, value@, i as int);
            }
            entries.insert(i, (key, value));
            proof {
                assert(view_entries(entries@) =~= inserted(old_v, key@, value@));
            }
            return;
        }
        i = i + 1;
    }
    proof {
        lemma_inserted_prefix(old_v, key@, value@, i as int);
    }
    entries.push((key, value));
    proof {
        assert(view_entries(entries@) =~= inserted(old_v, key@, value@));
    }
}

/// The shape of an insertion: entries before the first entry that is not
/// smaller than the key stay in front, the rest follows the new entry (or the
/// replaced one).
proof fn lemma_inserted_prefix(
    entries: Seq<(Seq<char>, JsonV)>,
    key: Seq<char>,
    value: JsonV,
    p: int,
)
    requires
        0 <= p <= entries.len(),
        forall|k: int| 0 <= k < p ==> #[trigger] entries[k].0 != key && !chars_lt(key, entries[k].0),
    ensures
        p == entries.len() ==> inserted(entries, key, value) == entries.push((key, value)),
        p < entries.len() && entries[p].0 == key ==> inserted(entries, key, value) == entries.update(
            p,
            (key, value),
        ),
        p < entries.len() && entries[p].0 != key && chars_lt(key, entries[p].0) ==> inserted(
            entries,
            key,
            value,
        ) == entries.insert(p, (key, value)),
    decreases p,
{
    if p == 0 {
        if entries.len() == 0 {
            assert(entries.push((key, value)) =~= seq![(key, value)]);
        } else {
            assert(entries.insert(0, (key, value)) =~= seq![(key, value)] + entries);
        }
    } else {
        let rest = entries.drop_first();
        assert forall|k: int| 0 <= k < p - 1 implies #[trigger] rest[k].0 != key && !chars_lt(
            key,
            rest[k].0,
        ) by {
            assert(rest[k] == entries[k + 1]);
        }
        lemma_inserted_prefix(rest, key, value, p - 1);
        assert(entries[0].0 != key && !chars_lt(key, entries[0].0));
        if p == entries.len() {
            assert(entries.push((key, value)) =~= seq![entries[0]] + rest.push((key, value)));
        } else {
            assert(entries.update(p, (key, value)) =~= seq![entries[0]] + rest.update(
                p - 1,
                (key, value),
            ));
            assert(entries.insert(p, (key, value)) =~= seq![entries[0]] + rest.insert(
                p - 1,
                (key, value),
            ));
        }
    }
}

} // verus!
