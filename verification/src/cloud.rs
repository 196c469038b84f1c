//! Cloud storage connectors: the [`CloudInput`] builder and the
//! [`OutputTarget`] model, plus the [`provider`] vocabulary.
//!
//! A cloud input is the wire descriptor
//! `{ type:"cloud", source, parameters, credentials }`; an output target is
//! `{ type, parameters, credentials }`, attached to a conversion. The
//! per-provider constructors carry each provider's required keys verbatim
//! (flat, lower-case), as constructor arguments rather than a runtime gate.
//! `credentials` are never surfaced on read; [`CloudInput::masked`] and
//! [`OutputTarget::masked`] give the rendering in which the whole
//! `credentials` object is `[REDACTED]` and sensitive `parameters` leaves are
//! masked.

pub mod provider;

use vstd::prelude::*;

use crate::data::{object, opt_chars, opt_string, spec_object, spec_opt_string, spec_string, string};
use crate::json::{
    clone_entries, inserted, json_str, lemma_inserted, member, object_of, owned, put, view_entries, Json,
    JsonV,
};
use crate::redact::{secret_free, spec_masked_parameters, MARKER};

verus! {

/// A cloud-storage input descriptor.
pub struct CloudInput {
    /// The provider (a raw string; any forward-compatible value is accepted).
    pub source: String,
    /// Non-secret locator keys (`bucket`, `file`, `host`, …).
    pub parameters: Vec<(String, Json)>,
    /// Secret keys (access keys, passwords, tokens).
    pub credentials: Vec<(String, Json)>,
}

/// Entries holding the given string-valued keys, inserted in order.
pub open spec fn str_entries(pairs: Seq<(Seq<char>, Seq<char>)>) -> Seq<(Seq<char>, JsonV)>
    decreases pairs.len(),
{
    if pairs.len() == 0 {
        Seq::empty()
    } else {
        inserted(str_entries(pairs.drop_last()), pairs.last().0, JsonV::Str(pairs.last().1))
    }
}

proof fn lemma_str_entries_push(pairs: Seq<(Seq<char>, Seq<char>)>, p: (Seq<char>, Seq<char>))
    ensures
        str_entries(pairs.push(p)) == inserted(str_entries(pairs), p.0, JsonV::Str(p.1)),
{
    assert(pairs.push(p).drop_last() =~= pairs);
}

/// The wire descriptor `{ type:"cloud", source, parameters, credentials }`.
pub open spec fn cloud_descriptor(
    source: Seq<char>,
    parameters: Seq<(Seq<char>, JsonV)>,
    credentials: Seq<(Seq<char>, JsonV)>,
) -> JsonV {
    JsonV::Object(
        inserted(
            inserted(
                inserted(
                    inserted(Seq::empty(), "type"@, JsonV::Str("cloud"@)),
                    "source"@,
                    JsonV::Str(source),
                ),
                "parameters"@,
                JsonV::Object(parameters),
            ),
            "credentials"@,
            JsonV::Object(credentials),
        ),
    )
}

/// The wire descriptor of an output target `{ type, parameters, credentials }`.
pub open spec fn target_descriptor(
    kind: Seq<char>,
    parameters: Seq<(Seq<char>, JsonV)>,
    credentials: Seq<(Seq<char>, JsonV)>,
) -> JsonV {
    JsonV::Object(
        inserted(
            inserted(
                inserted(Seq::empty(), "type"@, JsonV::Str(kind)),
                "parameters"@,
                JsonV::Object(parameters),
            ),
            "credentials"@,
            JsonV::Object(credentials),
        ),
    )
}

/// How a cloud input may be shown: its descriptor with the whole
/// `credentials` object replaced by `[REDACTED]` and every sensitive
/// `parameters` leaf masked.
pub open spec fn masked_input(source: Seq<char>, parameters: Seq<(Seq<char>, JsonV)>) -> JsonV {
    JsonV::Object(
        inserted(
            inserted(
                inserted(inserted(Seq::empty(), "type"@, JsonV::Str("cloud"@)), "source"@, JsonV::Str(source)),
                "parameters"@,
                JsonV::Object(spec_masked_parameters(parameters)),
            ),
            "credentials"@,
            JsonV::Str("[REDACTED]"@),
        ),
    )
}

/// How an output target may be shown: `credentials` replaced by
/// `[REDACTED]`, sensitive `parameters` leaves masked.
pub open spec fn masked_target(kind: Seq<char>, parameters: Seq<(Seq<char>, JsonV)>) -> JsonV {
    JsonV::Object(
        inserted(
            inserted(
                inserted(Seq::empty(), "type"@, JsonV::Str(kind)),
                "parameters"@,
                JsonV::Object(spec_masked_parameters(parameters)),
            ),
            "credentials"@,
            JsonV::Str("[REDACTED]"@),
        ),
    )
}

/// Build entries from string pairs.
fn entries_of(pairs: &Vec<(&str, &str)>) -> (r: Vec<(String, Json)>)
    ensures
        view_entries(r@) == str_entries(Seq::new(pairs@.len(), |i: int| (pairs@[i].0@, pairs@[i].1@))),
{
    let ghost ps = Seq::new(pairs@.len(), |i: int| (pairs@[i].0@, pairs@[i].1@));
    let mut r: Vec<(String, Json)> = Vec::new();
    let mut i: usize = 0;
    proof {
        assert(view_entries(r@) =~= Seq::<(Seq<char>, JsonV)>::empty());
        assert(ps.subrange(0, 0) =~= Seq::<(Seq<char>, Seq<char>)>::empty());
    }
    while i < pairs.len()
        invariant
            i <= pairs@.len(),
            ps == Seq::new(pairs@.len(), |i: int| (pairs@[i].0@, pairs@[i].1@)),
            view_entries(r@) == str_entries(ps.subrange(0, i as int)),
        decreases pairs@.len() - i,
    {
        let (k, v) = pairs[i];
        put(&mut r, k, json_str(v));
        proof {
            assert(ps.subrange(0, i + 1) =~= ps.subrange(0, i as int).push(ps[i as int]));
            lemma_str_entries_push(ps.subrange(0, i as int), ps[i as int]);
        }
        i = i + 1;
    }
    proof {
        assert(ps.subrange(0, pairs@.len() as int) =~= ps);
    }
    r
}

impl CloudInput {
    /// Any provider (a [`provider`] constant or a forward-compatible string),
    /// with empty maps.
    pub fn of(source: &str) -> (r: CloudInput)
        ensures
            r.source@ == source@,
            view_entries(r.parameters@) == Seq::<(Seq<char>, JsonV)>::empty(),
            view_entries(r.credentials@) == Seq::<(Seq<char>, JsonV)>::empty(),
    {
        let r = CloudInput { source: owned(source), parameters: Vec::new(), credentials: Vec::new() };
        assert(view_entries(r.parameters@) =~= Seq::<(Seq<char>, JsonV)>::empty());
        assert(view_entries(r.credentials@) =~= Seq::<(Seq<char>, JsonV)>::empty());
        r
    }

    /// Import from Amazon S3.
    pub fn amazon_s3(bucket: &str, file: &str, accesskeyid: &str, secretaccesskey: &str) -> (r: CloudInput)
        ensures
            r.source@ == "amazons3"@,
            view_entries(r.parameters@) == str_entries(seq![("bucket"@, bucket@), ("file"@, file@)]),
            view_entries(r.credentials@) == str_entries(
                seq![("accesskeyid"@, accesskeyid@), ("secretaccesskey"@, secretaccesskey@)],
            ),
    {
        let p = vec![("bucket", bucket), ("file", file)];
        let c = vec![("accesskeyid", accesskeyid), ("secretaccesskey", secretaccesskey)];
        let r = CloudInput { source: owned(provider::AMAZONS3), parameters: entries_of(&p), credentials: entries_of(&c) };
        assert(Seq::new(p@.len(), |i: int| (p@[i].0@, p@[i].1@)) =~= seq![("bucket"@, bucket@), ("file"@, file@)]);
        assert(Seq::new(c@.len(), |i: int| (c@[i].0@, c@[i].1@)) =~= seq![("accesskeyid"@, accesskeyid@), ("secretaccesskey"@, secretaccesskey@)]);
        r
    }

    /// Import from Azure Blob Storage.
    pub fn azure(container: &str, file: &str, accountname: &str, accountkey: &str) -> (r: CloudInput)
        ensures
            r.source@ == "azure"@,
            view_entries(r.parameters@) == str_entries(seq![("container"@, container@), ("file"@, file@)]),
            view_entries(r.credentials@) == str_entries(
                seq![("accountname"@, accountname@), ("accountkey"@, accountkey@)],
            ),
    {
        let p = vec![("container", container), ("file", file)];
        let c = vec![("accountname", accountname), ("accountkey", accountkey)];
        let r = CloudInput { source: owned(provider::AZURE), parameters: entries_of(&p), credentials: entries_of(&c) };
        assert(Seq::new(p@.len(), |i: int| (p@[i].0@, p@[i].1@)) =~= seq![("container"@, container@), ("file"@, file@)]);
        assert(Seq::new(c@.len(), |i: int| (c@[i].0@, c@[i].1@)) =~= seq![("accountname"@, accountname@), ("accountkey"@, accountkey@)]);
        r
    }

    /// Import from an FTP server.
    pub fn ftp(host: &str, file: &str, username: &str, password: &str) -> (r: CloudInput)
        ensures
            r.source@ == "ftp"@,
            view_entries(r.parameters@) == str_entries(seq![("host"@, host@), ("file"@, file@)]),
            view_entries(r.credentials@) == str_entries(
                seq![("username"@, username@), ("password"@, password@)],
            ),
    {
        let p = vec![("host", host), ("file", file)];
        let c = vec![("username", username), ("password", password)];
        let r = CloudInput { source: owned(provider::FTP), parameters: entries_of(&p), credentials: entries_of(&c) };
        assert(Seq::new(p@.len(), |i: int| (p@[i].0@, p@[i].1@)) =~= seq![("host"@, host@), ("file"@, file@)]);
        assert(Seq::new(c@.len(), |i: int| (c@[i].0@, c@[i].1@)) =~= seq![("username"@, username@), ("password"@, password@)]);
        r
    }

    /// Import from Google Cloud Storage.
    pub fn google_cloud(projectid: &str, bucket: &str, file: &str, keyfile: &str) -> (r: CloudInput)
        ensures
            r.source@ == "googlecloud"@,
            view_entries(r.parameters@) == str_entries(
                seq![("projectid"@, projectid@), ("bucket"@, bucket@), ("file"@, file@)],
            ),
            view_entries(r.credentials@) == str_entries(seq![("keyfile"@, keyfile@)]),
    {
        let p = vec![("projectid", projectid), ("bucket", bucket), ("file", file)];
        let c = vec![("keyfile", keyfile)];
        let r = CloudInput { source: owned(provider::GOOGLECLOUD), parameters: entries_of(&p), credentials: entries_of(&c) };
        assert(Seq::new(p@.len(), |i: int| (p@[i].0@, p@[i].1@)) =~= seq![("projectid"@, projectid@), ("bucket"@, bucket@), ("file"@, file@)]);
        assert(Seq::new(c@.len(), |i: int| (c@[i].0@, c@[i].1@)) =~= seq![("keyfile"@, keyfile@)]);
        r
    }

    /// Add or replace a `parameters` key.
    pub fn parameter(self, key: &str, value: Json) -> (r: CloudInput)
        ensures
            r.source@ == self.source@,
            view_entries(r.parameters@) == inserted(view_entries(self.parameters@), key@, value@),
            view_entries(r.credentials@) == view_entries(self.credentials@),
    {
        let mut r = self;
        put(&mut r.parameters, key, value);
        r
    }

    /// Add or replace a `credentials` key.
    pub fn credential(self, key: &str, value: Json) -> (r: CloudInput)
        ensures
            r.source@ == self.source@,
            view_entries(r.parameters@) == view_entries(self.parameters@),
            view_entries(r.credentials@) == inserted(view_entries(self.credentials@), key@, value@),
    {
        let mut r = self;
        put(&mut r.credentials, key, value);
        r
    }

    /// The wire descriptor sent to `POST /jobs` (inline `input`) or
    /// `POST /jobs/{id}/input`.
    pub fn to_value(&self) -> (r: Json)
        ensures
            r@ == cloud_descriptor(self.source@, view_entries(self.parameters@), view_entries(self.credentials@)),
    {
        let mut m: Vec<(String, Json)> = Vec::new();
        assert(view_entries(m@) =~= Seq::<(Seq<char>, JsonV)>::empty());
        put(&mut m, "type", json_str(crate::enums::input_type::CLOUD));
        put(&mut m, "source", json_str(self.source.as_str()));
        put(&mut m, "parameters", object_of(clone_entries(&self.parameters)));
        put(&mut m, "credentials", object_of(clone_entries(&self.credentials)));
        object_of(m)
    }

    /// The descriptor as it may be shown: the whole `credentials` object
    /// replaced by `[REDACTED]`, and every sensitive `parameters` leaf masked.
    pub fn masked(&self) -> (r: Json)
        ensures
            r@ == masked_input(self.source@, view_entries(self.parameters@)),
    {
        let mut m: Vec<(String, Json)> = Vec::new();
        assert(view_entries(m@) =~= Seq::<(Seq<char>, JsonV)>::empty());
        put(&mut m, "type", json_str(crate::enums::input_type::CLOUD));
        put(&mut m, "source", json_str(self.source.as_str()));
        put(&mut m, "parameters", object_of(crate::redact::parameters(&self.parameters)));
        put(&mut m, "credentials", json_str(MARKER));
        object_of(m)
    }
}

/// A cloud-storage delivery target for a conversion's output.
pub struct OutputTarget {
    /// The provider (a raw string; an unknown provider round-trips untyped).
    pub kind: String,
    /// Delivery locator keys (provider-specific).
    pub parameters: Vec<(String, Json)>,
    /// Secret keys; never surfaced on read.
    pub credentials: Vec<(String, Json)>,
    /// Server-set delivery status on read; never sent on create.
    pub status: Option<String>,
}

/// `t` is the output target read from the `output_target[]` element `v`:
/// `type`, `parameters` and `status` as given, `credentials` left empty.
pub open spec fn output_target_from(t: OutputTarget, v: JsonV) -> bool {
    &&& t.kind@ == spec_string(member(v, "type"@), ""@)
    &&& view_entries(t.parameters@) == spec_object(member(v, "parameters"@))
    &&& t.credentials@.len() == 0
    &&& opt_chars(t.status) == spec_opt_string(member(v, "status"@))
}

impl OutputTarget {
    /// A generic output target for `kind`, with empty maps.
    pub fn of(kind: &str) -> (r: OutputTarget)
        ensures
            r.kind@ == kind@,
            r.parameters@.len() == 0,
            r.credentials@.len() == 0,
            r.status is None,
    {
        OutputTarget { kind: owned(kind), parameters: Vec::new(), credentials: Vec::new(), status: None }
    }

    /// A generic output target from pre-assembled `parameters` /
    /// `credentials` maps.
    pub fn new(kind: &str, parameters: Vec<(String, Json)>, credentials: Vec<(String, Json)>) -> (r: OutputTarget)
        ensures
            r.kind@ == kind@,
            r.parameters == parameters,
            r.credentials == credentials,
            r.status is None,
    {
        OutputTarget { kind: owned(kind), parameters, credentials, status: None }
    }

    /// Add or replace a `parameters` key.
    pub fn parameter(self, key: &str, value: Json) -> (r: OutputTarget)
        ensures
            r.kind@ == self.kind@,
            view_entries(r.parameters@) == inserted(view_entries(self.parameters@), key@, value@),
            view_entries(r.credentials@) == view_entries(self.credentials@),
            r.status == self.status,
    {
        let mut r = self;
        put(&mut r.parameters, key, value);
        r
    }

    /// Add or replace a `credentials` key.
    pub fn credential(self, key: &str, value: Json) -> (r: OutputTarget)
        ensures
            r.kind@ == self.kind@,
            view_entries(r.parameters@) == view_entries(self.parameters@),
            view_entries(r.credentials@) == inserted(view_entries(self.credentials@), key@, value@),
            r.status == self.status,
    {
        let mut r = self;
        put(&mut r.credentials, key, value);
        r
    }

    /// The wire descriptor sent on create; `status` is omitted (server-set).
    pub fn to_value(&self) -> (r: Json)
        ensures
            r@ == target_descriptor(self.kind@, view_entries(self.parameters@), view_entries(self.credentials@)),
    {
        let mut m: Vec<(String, Json)> = Vec::new();
        assert(view_entries(m@) =~= Seq::<(Seq<char>, JsonV)>::empty());
        put(&mut m, "type", json_str(self.kind.as_str()));
        put(&mut m, "parameters", object_of(clone_entries(&self.parameters)));
        put(&mut m, "credentials", object_of(clone_entries(&self.credentials)));
        object_of(m)
    }

    /// Hydrate from an `output_target[]` element: `type` and `status` stay
    /// raw strings, `credentials` are deliberately not surfaced.
    pub fn from_value(v: &Json) -> (r: OutputTarget)
        ensures
            output_target_from(r, v@),
    {
        let kind = string(v.get("type"), "");
        let parameters = object(v.get("parameters"));
        let status = opt_string(v.get("status"));
        OutputTarget { kind, parameters, credentials: Vec::new(), status }
    }

    /// The target as it may be shown: `credentials` replaced by
    /// `[REDACTED]`, sensitive `parameters` leaves masked.
    pub fn masked(&self) -> (r: Json)
        ensures
            r@ == masked_target(self.kind@, view_entries(self.parameters@)),
    {
        let mut m: Vec<(String, Json)> = Vec::new();
        assert(view_entries(m@) =~= Seq::<(Seq<char>, JsonV)>::empty());
        put(&mut m, "type", json_str(self.kind.as_str()));
        put(&mut m, "parameters", object_of(crate::redact::parameters(&self.parameters)));
        put(&mut m, "credentials", json_str(MARKER));
        object_of(m)
    }
}

/// The rendering of a cloud input or an output target never shows a
/// credential: its `credentials` member is the marker, and its `parameters`
/// member holds nothing but the marker under any sensitive key, at any depth.
pub proof fn masked_descriptors_hide_credentials(
    source: Seq<char>,
    kind: Seq<char>,
    parameters: Seq<(Seq<char>, JsonV)>,
)
    ensures
        member(masked_input(source, parameters), "credentials"@) == Some(JsonV::Str("[REDACTED]"@)),
        member(masked_input(source, parameters), "parameters"@) matches Some(p) && secret_free(p),
        member(masked_target(kind, parameters), "credentials"@) == Some(JsonV::Str("[REDACTED]"@)),
        member(masked_target(kind, parameters), "parameters"@) matches Some(p) && secret_free(p),
{
    reveal_strlit("type");
    reveal_strlit("source");
    reveal_strlit("parameters");
    reveal_strlit("credentials");
    assert("parameters"@[0] != "credentials"@[0]);
    let masked = JsonV::Object(spec_masked_parameters(parameters));
    crate::redact::redaction_leaves_no_secret(JsonV::Object(parameters));
    assert(masked == crate::redact::redacted(JsonV::Object(parameters)));
    let marker = JsonV::Str("[REDACTED]"@);
    let e0: Seq<(Seq<char>, JsonV)> = Seq::empty();
    let a = inserted(e0, "type"@, JsonV::Str("cloud"@));
    lemma_inserted(e0, "type"@, JsonV::Str("cloud"@), "type"@);
    let b = inserted(a, "source"@, JsonV::Str(source));
    lemma_inserted(a, "source"@, JsonV::Str(source), "source"@);
    let c = inserted(b, "parameters"@, masked);
    lemma_inserted(b, "parameters"@, masked, "parameters"@);
    lemma_inserted(c, "credentials"@, marker, "parameters"@);
    let t = inserted(e0, "type"@, JsonV::Str(kind));
    lemma_inserted(e0, "type"@, JsonV::Str(kind), "type"@);
    let u = inserted(t, "parameters"@, masked);
    lemma_inserted(t, "parameters"@, masked, "parameters"@);
    lemma_inserted(u, "credentials"@, marker, "parameters"@);
}

} // verus!
