//! The library-agnostic request and response header model.

use vstd::prelude::*;

use crate::text::{chars_of, lower_chars, lower_seq, string_from_chars};

verus! {

/// A case-insensitive collection of response headers. Names are stored
/// ASCII-lower-cased, in insertion order; a lookup returns the first match.
#[derive(Clone)]
pub struct Headers {
    entries: Vec<(String, String)>,
}

/// The value of the first entry named `name` (names compared as stored).
pub open spec fn first_value(entries: Seq<(Seq<char>, Seq<char>)>, name: Seq<char>) -> Option<
    Seq<char>,
>
    decreases entries.len(),
{
    if entries.len() == 0 {
        None
    } else if entries[0].0 == name {
        Some(entries[0].1)
    } else {
        first_value(entries.drop_first(), name)
    }
}

impl View for Headers {
    type V = Seq<(Seq<char>, Seq<char>)>;

    closed spec fn view(&self) -> Seq<(Seq<char>, Seq<char>)> {
        Seq::new(self.entries@.len(), |i: int| (self.entries@[i].0@, self.entries@[i].1@))
    }
}

/// Appending an entry leaves earlier lookups unchanged and answers a lookup
/// of the new name when nothing earlier matched.
pub proof fn lemma_first_value_push(
    entries: Seq<(Seq<char>, Seq<char>)>,
    e: (Seq<char>, Seq<char>),
    name: Seq<char>,
)
    ensures
        first_value(entries, name) matches Some(v) ==> first_value(entries.push(e), name) == Some(v),
        first_value(entries, name) is None ==> first_value(entries.push(e), name) == (if e.0
            == name {
            Some(e.1)
        } else {
            None
        }),
    decreases entries.len(),
{
    if entries.len() > 0 {
        assert(entries.push(e).drop_first() =~= entries.drop_first().push(e));
        lemma_first_value_push(entries.drop_first(), e, name);
    } else {
        assert(entries.push(e).drop_first() =~= Seq::<(Seq<char>, Seq<char>)>::empty());
        assert(entries.push(e)[0] == e);
        reveal_with_fuel(first_value, 2);
    }
}

impl Headers {
    /// An empty collection.
    pub fn new() -> (h: Headers)
        ensures
            h@ == Seq::<(Seq<char>, Seq<char>)>::empty(),
    {
        let h = Headers { entries: Vec::new() };
        assert(h@ =~= Seq::<(Seq<char>, Seq<char>)>::empty());
        h
    }

    /// Add a header. The name is stored lower-cased for case-insensitive lookup.
    pub fn insert(&mut self, name: &str, value: &str)
        ensures
            final(self)@ == old(self)@.push((lower_seq(name@), value@)),
    {
        let n = chars_of(name);
        let lowered = lower_chars(&n);
        let key = string_from_chars(&lowered);
        let mut v = String::new();
        v.append(value);
        self.entries.push((key, v));
        assert(self@ =~= old(self)@.push((lower_seq(name@), value@)));
    }

    /// The first value for `name` (case-insensitive), if any.
    pub fn get(&self, name: &str) -> (r: Option<&str>)
        ensures
            r matches Some(v) ==> first_value(self@, lower_seq(name@)) == Some(v@),
            r is None ==> first_value(self@, lower_seq(name@)) is None,
    {
        let n = chars_of(name);
        let lowered = lower_chars(&n);
        let key = string_from_chars(&lowered);
        let ghost full = self@;
        let mut i: usize = 0;
        proof {
            assert(full.skip(0) =~= full);
        }
        while i < self.entries.len()
            invariant
                i <= self.entries@.len(),
                full == self@,
                full.len() == self.entries@.len(),
                key@ == lower_seq(name@),
                first_value(full, key@) == first_value(full.skip(i as int), key@),
            decreases self.entries@.len() - i,
        {
            let ghost rest = full.skip(i as int);
            assert(rest[0] == full[i as int]);
            assert(full[i as int] == (self.entries@[i as int].0@, self.entries@[i as int].1@));
            if self.entries[i].0 == key {
                return Some(self.entries[i].1.as_str());
            }
            assert(rest.drop_first() =~= full.skip(i + 1));
            i = i + 1;
        }
        None
    }

    /// The number of stored entries.
    pub fn len(&self) -> (n: usize)
        ensures
            n == self@.len(),
    {
        self.entries.len()
    }
}

impl Default for Headers {
    /// An empty collection.
    fn default() -> (h: Headers)
        ensures
            h@ == Seq::<(Seq<char>, Seq<char>)>::empty(),
    {
        Headers::new()
    }
}

} // verus!
