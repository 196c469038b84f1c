//! Tolerant hydration helpers over [`Json`]: a field that is missing, `null`
//! or of an unexpected type degrades to a default rather than an error.

use vstd::prelude::*;

use crate::json::{opt_view, clone_entries, clone_items, view_entries, view_items, view_json, Json, JsonNumber, JsonV};
use crate::numbers::{float_bits_trunc, float_trunc, float_text_trunc, float_text_value};
use crate::parse::{i64_text, parse_i64};
use crate::text::{chars_of, trim, trim_chars};

verus! {

/// A JSON string, or `None` for anything else (numbers and booleans are not
/// stringified).
pub open spec fn spec_opt_string(v: Option<JsonV>) -> Option<Seq<char>> {
    match v {
        Some(JsonV::Str(s)) => Some(s),
        _ => None,
    }
}

/// A JSON string, or `default`.
pub open spec fn spec_string(v: Option<JsonV>, default: Seq<char>) -> Seq<char> {
    match spec_opt_string(v) {
        Some(s) => s,
        None => default,
    }
}

/// The integer a JSON number stands for: integers as is (a non-negative
/// integer above `i64::MAX` wraps, as a cast does), doubles truncated toward
/// zero and saturated.
pub open spec fn number_i64(n: JsonNumber) -> i64 {
    match n {
        JsonNumber::PosInt(u) => u as i64,
        JsonNumber::NegInt(i) => i,
        JsonNumber::Float(bits) => float_trunc(bits),
    }
}

/// A nullable integer: a JSON number, or a numeric string (an integer, or a
/// decimal number truncated toward zero); `None` for anything else.
pub open spec fn spec_opt_i64(v: Option<JsonV>) -> Option<i64> {
    match v {
        Some(JsonV::Number(n)) => Some(number_i64(n)),
        Some(JsonV::Str(s)) => match i64_text(trim(s)) {
            Some(i) => Some(i),
            None => float_text_value(trim(s)),
        },
        _ => None,
    }
}

/// A JSON object's entries, or none for anything else.
pub open spec fn spec_object(v: Option<JsonV>) -> Seq<(Seq<char>, JsonV)> {
    match v {
        Some(JsonV::Object(entries)) => entries,
        _ => Seq::empty(),
    }
}

/// A JSON array's items; an object's values in key order; nothing otherwise.
pub open spec fn spec_list(v: Option<JsonV>) -> Seq<JsonV> {
    match v {
        Some(JsonV::Array(items)) => items,
        Some(JsonV::Object(entries)) => Seq::new(entries.len(), |i: int| entries[i].1),
        _ => Seq::empty(),
    }
}

/// The characters of an optional string.
pub open spec fn opt_chars(o: Option<String>) -> Option<Seq<char>> {
    match o {
        Some(s) => Some(s@),
        None => None,
    }
}

/// A JSON string, or `None`.
pub fn opt_string(v: Option<&Json>) -> (r: Option<String>)
    ensures
        opt_chars(r) == spec_opt_string(opt_view(v)),
{
    match v {
        Some(Json::Str(s)) => Some(s.clone()),
        _ => None,
    }
}

/// A JSON string, or `default` when absent / not a string.
pub fn string(v: Option<&Json>, default: &str) -> (r: String)
    ensures
        r@ == spec_string(opt_view(v), default@),
{
    match v {
        Some(Json::Str(s)) => s.clone(),
        _ => {
            let mut d = String::new();
            d.append(default);
            d
        },
    }
}

/// A nullable integer from a number or a numeric string.
pub fn opt_i64(v: Option<&Json>) -> (r: Option<i64>)
    ensures
        r == spec_opt_i64(opt_view(v)),
{
    match v {
        Some(Json::Number(n)) => match n {
            JsonNumber::PosInt(u) => Some(*u as i64),
            JsonNumber::NegInt(i) => Some(*i),
            JsonNumber::Float(bits) => Some(float_bits_trunc(*bits)),
        },
        Some(Json::Str(s)) => {
            let raw = chars_of(s.as_str());
            let t = trim_chars(&raw);
            match parse_i64(&t) {
                Some(i) => Some(i),
                None => float_text_trunc(&t),
            }
        },
        _ => None,
    }
}

/// A JSON object's entries (copied), or an empty map.
pub fn object(v: Option<&Json>) -> (r: Vec<(String, Json)>)
    ensures
        view_entries(r@) == spec_object(opt_view(v)),
{
    match v {
        Some(Json::Object(entries)) => {
            proof {
                assert(view_json(Json::Object(*entries))->Object_0 =~= view_entries(entries@));
            }
            clone_entries(entries)
        },
        _ => {
            let r: Vec<(String, Json)> = Vec::new();
            assert(view_entries(r@) =~= Seq::<(Seq<char>, JsonV)>::empty());
            r
        },
    }
}

/// A JSON array (copied); an object's values in key order; otherwise empty.
pub fn list(v: Option<&Json>) -> (r: Vec<Json>)
    ensures
        view_items(r@) == spec_list(opt_view(v)),
{
    match v {
        Some(Json::Array(items)) => {
            proof {
                assert(view_json(Json::Array(*items))->Array_0 =~= view_items(items@));
            }
            clone_items(items)
        },
        Some(Json::Object(entries)) => {
            let mut out: Vec<Json> = Vec::new();
            let mut i: usize = 0;
            while i < entries.len()
                invariant
                    i <= entries@.len(),
                    out@.len() == i,
                    forall|k: int|
                        0 <= k < i ==> view_json(#[trigger] out@[k]) == view_json(entries@[k].1),
                decreases entries@.len() - i,
            {
                out.push(entries[i].1.deep_clone());
                i = i + 1;
            }
            proof {
                assert(view_json(Json::Object(*entries))->Object_0 =~= view_entries(entries@));
                assert(view_items(out@) =~= spec_list(opt_view(v)));
            }
            out
        },
        _ => {
            let r: Vec<Json> = Vec::new();
            assert(view_items(r@) =~= Seq::<JsonV>::empty());
            r
        },
    }
}

} // verus!
