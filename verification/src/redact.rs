//! Credential redaction.
//!
//! Cloud `credentials` ride in the plaintext request body, so they must never
//! surface where a value could leak them: the whole `credentials` object
//! collapses to [`MARKER`] in a shown descriptor, any `parameters` leaf whose
//! key contains a sensitive token ([`is_sensitive_key`], case-insensitive
//! substring) collapses to [`MARKER`], and a decoded error body is walked at
//! every depth ([`redact_body`]).

use vstd::prelude::*;

use crate::json::{
    lookup, lemma_view_array, lemma_view_object, view_entries, view_items, view_json, Json, JsonV,
};
use crate::text::{chars_of, contains, contains_exec, lower_chars, lower_seq, chars_from};

verus! {

/// The fixed redaction marker.
pub const MARKER: &'static str = "[REDACTED]";

/// Whether a key name marks its value as sensitive: its lower-cased form
/// contains one of `token`, `password`, `passwd`, `secret`, `key`, `keyfile`,
/// `credential`, `passphrase`, `sas`, `sig`, `signature`.
pub open spec fn sensitive(key: Seq<char>) -> bool {
    let l = lower_seq(key);
    contains(l, "token"@) || contains(l, "password"@) || contains(l, "passwd"@) || contains(
        l,
        "secret"@,
    ) || contains(l, "key"@) || contains(l, "keyfile"@) || contains(l, "credential"@) || contains(
        l,
        "passphrase"@,
    ) || contains(l, "sas"@) || contains(l, "sig"@) || contains(l, "signature"@)
}

/// Whether a key name marks its value as sensitive (case-insensitive
/// substring match).
pub fn is_sensitive_key(key: &str) -> (r: bool)
    ensures
        r == sensitive(key@),
{
    let k = chars_of(key);
    let l = lower_chars(&k);
    contains_exec(&l, &chars_from("token")) || contains_exec(&l, &chars_from("password"))
        || contains_exec(&l, &chars_from("passwd")) || contains_exec(&l, &chars_from("secret"))
        || contains_exec(&l, &chars_from("key")) || contains_exec(&l, &chars_from("keyfile"))
        || contains_exec(&l, &chars_from("credential")) || contains_exec(
        &l,
        &chars_from("passphrase"),
    ) || contains_exec(&l, &chars_from("sas")) || contains_exec(&l, &chars_from("sig"))
        || contains_exec(&l, &chars_from("signature"))
}

/// The redaction of a value: at every depth, the value under a sensitive key
/// becomes the marker string; everything else is kept.
pub open spec fn redacted(v: JsonV) -> JsonV
    decreases v,
{
    match v {
        JsonV::Object(entries) => JsonV::Object(
            Seq::new(
                entries.len(),
                |i: int|
                    if 0 <= i < entries.len() {
                        if sensitive(entries[i].0) {
                            (entries[i].0, JsonV::Str("[REDACTED]"@))
                        } else {
                            (entries[i].0, redacted(entries[i].1))
                        }
                    } else {
                        (Seq::empty(), JsonV::Null)
                    },
            ),
        ),
        JsonV::Array(items) => JsonV::Array(
            Seq::new(
                items.len(),
                |i: int|
                    if 0 <= i < items.len() {
                        redacted(items[i])
                    } else {
                        JsonV::Null
                    },
            ),
        ),
        _ => v,
    }
}

/// The redaction of an object's entries.
pub open spec fn spec_masked_parameters(entries: Seq<(Seq<char>, JsonV)>) -> Seq<(Seq<char>, JsonV)> {
    redacted(JsonV::Object(entries))->Object_0
}

/// A copy of a value with every sensitive key's value masked, at every depth.
pub fn redact_value(v: &Json) -> (r: Json)
    ensures
        r@ == redacted(v@),
    decreases v,
{
    match v {
        Json::Object(entries) => {
            let mut out: Vec<(String, Json)> = Vec::new();
            let mut i: usize = 0;
            while i < entries.len()
                invariant
                    *v == Json::Object(*entries),
                    i <= entries@.len(),
                    out@.len() == i,
                    forall|k: int|
                        0 <= k < i ==> (#[trigger] out@[k]).0@ == entries@[k].0@ && view_json(
                            out@[k].1,
                        ) == (if sensitive(entries@[k].0@) {
                            JsonV::Str("[REDACTED]"@)
                        } else {
                            redacted(view_json(entries@[k].1))
                        }),
                decreases entries@.len() - i,
            {
                let key = entries[i].0.clone();
                let value = if is_sensitive_key(entries[i].0.as_str()) {
                    let mut m = String::new();
                    m.append(MARKER);
                    Json::Str(m)
                } else {
                    proof {
                        assert(decreases_to!(*v => (*v)->Object_0));
                        assert(decreases_to!(*entries => entries@));
                        assert(decreases_to!(entries@ => entries@[i as int]));
                        assert(decreases_to!(entries@[i as int] => entries@[i as int].1));
                    }
                    redact_value(&entries[i].1)
                };
                out.push((key, value));
                i = i + 1;
            }
            proof {
                lemma_view_object(out);
                lemma_view_object(*entries);
                assert(view_entries(out@) =~= redacted(JsonV::Object(view_entries(entries@)))->Object_0);
            }
            Json::Object(out)
        },
        Json::Array(items) => {
            let mut out: Vec<Json> = Vec::new();
            let mut i: usize = 0;
            while i < items.len()
                invariant
                    *v == Json::Array(*items),
                    i <= items@.len(),
                    out@.len() == i,
                    forall|k: int|
                        0 <= k < i ==> view_json(#[trigger] out@[k]) == redacted(view_json(items@[k])),
                decreases items@.len() - i,
            {
                proof {
                    assert(decreases_to!(*v => (*v)->Array_0));
                    assert(decreases_to!(*items => items@));
                    assert(decreases_to!(items@ => items@[i as int]));
                }
                out.push(redact_value(&items[i]));
                i = i + 1;
            }
            proof {
                lemma_view_array(out);
                lemma_view_array(*items);
                assert(view_items(out@) =~= redacted(JsonV::Array(view_items(items@)))->Array_0);
            }
            Json::Array(out)
        },
        Json::Null => Json::Null,
        Json::Bool(b) => Json::Bool(*b),
        Json::Number(n) => Json::Number(*n),
        Json::Str(s) => Json::Str(s.clone()),
    }
}

/// A copy of a `parameters` map with sensitive leaves masked; nested objects
/// are walked.
pub fn parameters(params: &Vec<(String, Json)>) -> (r: Vec<(String, Json)>)
    ensures
        view_entries(r@) == spec_masked_parameters(view_entries(params@)),
{
    let whole = Json::Object(clone_params(params));
    proof {
        lemma_view_object(whole->Object_0);
    }
    match redact_value(&whole) {
        Json::Object(entries) => {
            proof {
                lemma_view_object(entries);
            }
            entries
        },
        _ => Vec::new(),
    }
}

fn clone_params(params: &Vec<(String, Json)>) -> (r: Vec<(String, Json)>)
    ensures
        view_entries(r@) == view_entries(params@),
{
    crate::json::clone_entries(params)
}

/// Deep-walk a decoded error body and mask the value of every sensitive key
/// (a flattened key such as `input.0.credentials.secretaccesskey` included).
pub fn redact_body(body: &Json) -> (r: Json)
    ensures
        r@ == redacted(body@),
{
    redact_value(body)
}

/// No sensitive key, at any depth, holds anything but the marker.
pub open spec fn secret_free(v: JsonV) -> bool
    decreases v,
{
    match v {
        JsonV::Object(entries) => forall|i: int|
            0 <= i < entries.len() ==> (if sensitive(#[trigger] entries[i].0) {
                entries[i].1 == JsonV::Str("[REDACTED]"@)
            } else {
                secret_free(entries[i].1)
            }),
        JsonV::Array(items) => forall|i: int| 0 <= i < items.len() ==> secret_free(#[trigger] items[i]),
        _ => true,
    }
}

/// After redaction, no sensitive key at any depth holds anything but the
/// marker: a credential in an error body cannot survive redaction.
pub proof fn redaction_leaves_no_secret(v: JsonV)
    ensures
        secret_free(redacted(v)),
    decreases v,
{
    match v {
        JsonV::Object(entries) => {
            let r = redacted(v);
            assert forall|i: int| 0 <= i < entries.len() implies (if sensitive(
                #[trigger] r->Object_0[i].0,
            ) {
                r->Object_0[i].1 == JsonV::Str("[REDACTED]"@)
            } else {
                secret_free(r->Object_0[i].1)
            }) by {
                if !sensitive(entries[i].0) {
                    redaction_leaves_no_secret(entries[i].1);
                }
            }
        },
        JsonV::Array(items) => {
            let r = redacted(v);
            assert forall|i: int| 0 <= i < items.len() implies secret_free(#[trigger] r->Array_0[i]) by {
                redaction_leaves_no_secret(items[i]);
            }
        },
        _ => {},
    }
}

/// Redaction is idempotent: redacting twice changes nothing more.
pub proof fn redaction_is_idempotent(v: JsonV)
    ensures
        redacted(redacted(v)) == redacted(v),
    decreases v,
{
    match v {
        JsonV::Object(entries) => {
            let r = redacted(v);
            let rr = redacted(r);
            assert forall|i: int| 0 <= i < entries.len() implies #[trigger] rr->Object_0[i]
                == r->Object_0[i] by {
                if !sensitive(entries[i].0) {
                    redaction_is_idempotent(entries[i].1);
                }
            }
            assert(rr->Object_0 =~= r->Object_0);
        },
        JsonV::Array(items) => {
            let r = redacted(v);
            let rr = redacted(r);
            assert forall|i: int| 0 <= i < items.len() implies #[trigger] rr->Array_0[i]
                == r->Array_0[i] by {
                redaction_is_idempotent(items[i]);
            }
            assert(rr->Array_0 =~= r->Array_0);
        },
        _ => {},
    }
}

/// Under a key that is not sensitive, redaction only redacts: the member of
/// the redacted object is the redaction of the member (so a server `message`
/// string survives unchanged), and a sensitive key's member is the marker.
pub proof fn redaction_keeps_other_members(entries: Seq<(Seq<char>, JsonV)>, key: Seq<char>)
    ensures
        !sensitive(key) ==> lookup(redacted(JsonV::Object(entries))->Object_0, key) == match lookup(
            entries,
            key,
        ) {
            Some(x) => Some(redacted(x)),
            None => None,
        },
        sensitive(key) && lookup(entries, key) is Some ==> lookup(
            redacted(JsonV::Object(entries))->Object_0,
            key,
        ) == Some(JsonV::Str("[REDACTED]"@)),
    decreases entries.len(),
{
    let r = redacted(JsonV::Object(entries))->Object_0;
    if entries.len() > 0 {
        let rest = entries.drop_first();
        redaction_keeps_other_members(rest, key);
        assert(redacted(JsonV::Object(rest))->Object_0 =~= r.drop_first());
    }
}

/// Redaction keeps the shape of a value: an object keeps its keys in order,
/// each sensitive key's value becomes the marker and every other value is
/// redacted in turn; an array keeps its length, each item redacted; a value
/// that is neither is kept as it is.
pub proof fn redaction_keeps_shape(v: JsonV)
    ensures
        v is Object ==> redacted(v) is Object && redacted(v)->Object_0.len() == v->Object_0.len() && (
        forall|i: int|
            0 <= i < v->Object_0.len() ==> #[trigger] redacted(v)->Object_0[i].0 == v->Object_0[i].0
                && redacted(v)->Object_0[i].1 == if sensitive(v->Object_0[i].0) {
                JsonV::Str("[REDACTED]"@)
            } else {
                redacted(v->Object_0[i].1)
            }),
        v is Array ==> redacted(v) is Array && redacted(v)->Array_0.len() == v->Array_0.len() && (
        forall|i: int|
            0 <= i < v->Array_0.len() ==> #[trigger] redacted(v)->Array_0[i] == redacted(
                v->Array_0[i],
            )),
        !(v is Object) && !(v is Array) ==> redacted(v) == v,
{
}

} // verus!
