//! What a one-call conversion sends: how a string input is classified, and
//! the `POST /jobs` payload that creates the job.

use vstd::prelude::*;

use crate::cloud::{cloud_descriptor, target_descriptor, CloudInput, OutputTarget};
use crate::json::{
    array_of, clone_entries, inserted, json_str, lemma_inserted, lookup, member, object_of, put, view_entries,
    view_items, Json, JsonV,
};
use crate::text::{chars_from, chars_of, starts_with, starts_with_exec};

verus! {

/// Whether a string names a remote URL: it begins with `http://` or
/// `https://`; any other string is a local path.
pub open spec fn is_url_text(s: Seq<char>) -> bool {
    starts_with(s, "http://"@) || starts_with(s, "https://"@)
}

/// Whether a string input is a remote URL (any other string is a local path).
pub fn is_url(s: &str) -> (r: bool)
    ensures
        r == is_url_text(s@),
{
    let cs = chars_of(s);
    starts_with_exec(&cs, &chars_from("http://")) || starts_with_exec(&cs, &chars_from("https://"))
}

/// How the input of a new job arrives.
pub enum JobSource {
    /// Imported from customer storage: a started job with the descriptor inline.
    Cloud(CloudInput),
    /// A remote URL: a started job with a `remote` input.
    Url(String),
    /// A local file, buffer or stream: a staged job, uploaded to afterwards.
    Upload,
}

/// The remote-input descriptor `{ type: "remote", source }`.
pub open spec fn remote_descriptor(url: Seq<char>) -> JsonV {
    JsonV::Object(inserted(inserted(Seq::empty(), "type"@, JsonV::Str("remote"@)), "source"@, JsonV::Str(url)))
}

/// The remote-input descriptor for `url`.
pub fn remote_input(url: &str) -> (r: Json)
    ensures
        r@ == remote_descriptor(url@),
{
    let mut m: Vec<(String, Json)> = Vec::new();
    assert(view_entries(m@) =~= Seq::<(Seq<char>, JsonV)>::empty());
    put(&mut m, "type", json_str(crate::enums::input_type::REMOTE));
    put(&mut m, "source", json_str(url));
    object_of(m)
}

/// The output targets, as wire descriptors.
pub open spec fn target_values(targets: Seq<OutputTarget>) -> Seq<JsonV> {
    Seq::new(
        targets.len(),
        |i: int|
            target_descriptor(
                targets[i].kind@,
                view_entries(targets[i].parameters@),
                view_entries(targets[i].credentials@),
            ),
    )
}

/// The conversion object: its `target`; `category` when one is given;
/// `options` when the map is not empty; `output_target` when there are
/// delivery targets.
pub open spec fn conversion_entries(
    to: Seq<char>,
    category: Option<Seq<char>>,
    options: Seq<(Seq<char>, JsonV)>,
    targets: Seq<OutputTarget>,
) -> Seq<(Seq<char>, JsonV)> {
    let a = inserted(Seq::empty(), "target"@, JsonV::Str(to));
    let b = match category {
        Some(c) => inserted(a, "category"@, JsonV::Str(c)),
        None => a,
    };
    let c = if options.len() > 0 {
        inserted(b, "options"@, JsonV::Object(options))
    } else {
        b
    };
    if targets.len() > 0 {
        inserted(c, "output_target"@, JsonV::Array(target_values(targets)))
    } else {
        c
    }
}

/// The payload that creates a conversion job: one conversion; `callback`
/// and `notify_status: true` for an asynchronous conversion with a callback;
/// `download_passwords` when a password is given; then `process: true` and
/// the inline input for a cloud or URL source, or `process: false` for a
/// source that is uploaded afterwards.
pub open spec fn conversion_payload_of(
    conversion: Seq<(Seq<char>, JsonV)>,
    is_async: bool,
    callback: Option<Seq<char>>,
    download_password: Option<Seq<char>>,
    source: JobSource,
) -> JsonV {
    let a = inserted(Seq::empty(), "conversion"@, JsonV::Array(seq![JsonV::Object(conversion)]));
    let b = match callback {
        Some(cb) => if is_async {
            inserted(inserted(a, "callback"@, JsonV::Str(cb)), "notify_status"@, JsonV::Bool(true))
        } else {
            a
        },
        None => a,
    };
    let c = match download_password {
        Some(pw) => inserted(b, "download_passwords"@, JsonV::Array(seq![JsonV::Str(pw)])),
        None => b,
    };
    JsonV::Object(
        match source {
            JobSource::Cloud(ci) => inserted(
                inserted(c, "process"@, JsonV::Bool(true)),
                "input"@,
                JsonV::Array(
                    seq![cloud_descriptor(ci.source@, view_entries(ci.parameters@), view_entries(ci.credentials@))],
                ),
            ),
            JobSource::Url(u) => inserted(
                inserted(c, "process"@, JsonV::Bool(true)),
                "input"@,
                JsonV::Array(seq![remote_descriptor(u@)]),
            ),
            JobSource::Upload => inserted(c, "process"@, JsonV::Bool(false)),
        },
    )
}

/// The optional text as a sequence.
pub open spec fn opt_str(o: Option<&str>) -> Option<Seq<char>> {
    match o {
        Some(s) => Some(s@),
        None => None,
    }
}

/// The wire descriptors of the output targets.
fn targets_array(targets: &Vec<OutputTarget>) -> (r: Json)
    ensures
        r@ == JsonV::Array(target_values(targets@)),
{
    let mut items: Vec<Json> = Vec::new();
    let mut i: usize = 0;
    while i < targets.len()
        invariant
            i <= targets@.len(),
            view_items(items@) =~= target_values(targets@).subrange(0, i as int),
        decreases targets@.len() - i,
    {
        let v = targets[i].to_value();
        let ghost before = items@;
        items.push(v);
        proof {
            assert(target_values(targets@)[i as int] == v@);
            assert(view_items(items@) =~= view_items(before).push(v@));
            assert(target_values(targets@).subrange(0, i + 1) =~= target_values(targets@).subrange(
                0,
                i as int,
            ).push(v@));
        }
        i = i + 1;
    }
    assert(target_values(targets@).subrange(0, targets@.len() as int) =~= target_values(targets@));
    array_of(items)
}

/// The conversion object of a job.
pub fn conversion_object(
    to: &str,
    category: Option<&str>,
    options: &Vec<(String, Json)>,
    output_targets: &Vec<OutputTarget>,
) -> (r: Json)
    ensures
        r@ == JsonV::Object(conversion_entries(to@, opt_str(category), view_entries(options@), output_targets@)),
{
    let mut m: Vec<(String, Json)> = Vec::new();
    assert(view_entries(m@) =~= Seq::<(Seq<char>, JsonV)>::empty());
    put(&mut m, "target", json_str(to));
    match category {
        Some(c) => put(&mut m, "category", json_str(c)),
        None => {},
    }
    if options.len() > 0 {
        put(&mut m, "options", object_of(clone_entries(options)));
    }
    if output_targets.len() > 0 {
        put(&mut m, "output_target", targets_array(output_targets));
    }
    object_of(m)
}

/// The payload that creates a conversion job (see [`conversion_payload_of`]).
pub fn conversion_payload(
    to: &str,
    options: &Vec<(String, Json)>,
    category: Option<&str>,
    is_async: bool,
    callback: Option<&str>,
    download_password: Option<&str>,
    output_targets: &Vec<OutputTarget>,
    source: &JobSource,
) -> (r: Json)
    ensures
        r@ == conversion_payload_of(
            conversion_entries(to@, opt_str(category), view_entries(options@), output_targets@),
            is_async,
            opt_str(callback),
            opt_str(download_password),
            *source,
        ),
{
    let conversion = conversion_object(to, category, options, output_targets);
    let mut one: Vec<Json> = Vec::new();
    one.push(conversion);
    assert(view_items(one@) =~= seq![one@[0]@]);
    let mut m: Vec<(String, Json)> = Vec::new();
    assert(view_entries(m@) =~= Seq::<(Seq<char>, JsonV)>::empty());
    put(&mut m, "conversion", array_of(one));
    if is_async {
        match callback {
            Some(cb) => {
                put(&mut m, "callback", json_str(cb));
                put(&mut m, "notify_status", Json::Bool(true));
            },
            None => {},
        }
    }
    match download_password {
        Some(pw) => {
            let mut pws: Vec<Json> = Vec::new();
            pws.push(json_str(pw));
            assert(view_items(pws@) =~= seq![pws@[0]@]);
            put(&mut m, "download_passwords", array_of(pws));
        },
        None => {},
    }
    match source {
        JobSource::Cloud(ci) => {
            put(&mut m, "process", Json::Bool(true));
            let mut input: Vec<Json> = Vec::new();
            input.push(ci.to_value());
            assert(view_items(input@) =~= seq![input@[0]@]);
            put(&mut m, "input", array_of(input));
        },
        JobSource::Url(u) => {
            put(&mut m, "process", Json::Bool(true));
            let mut input: Vec<Json> = Vec::new();
            input.push(remote_input(u.as_str()));
            assert(view_items(input@) =~= seq![input@[0]@]);
            put(&mut m, "input", array_of(input));
        },
        JobSource::Upload => {
            put(&mut m, "process", Json::Bool(false));
        },
    }
    object_of(m)
}

/// The patch that starts a staged job: `{ process: true }`.
pub fn start_payload() -> (r: Json)
    ensures
        r@ == JsonV::Object(inserted(Seq::empty(), "process"@, JsonV::Bool(true))),
{
    let mut m: Vec<(String, Json)> = Vec::new();
    assert(view_entries(m@) =~= Seq::<(Seq<char>, JsonV)>::empty());
    put(&mut m, "process", Json::Bool(true));
    object_of(m)
}

/// The conversion-options map never collides with the named controls: in
/// the conversion object the target, the category and the delivery targets
/// stay under their own keys whatever the map holds, and the map itself sits
/// whole under `options` (absent when empty).
pub proof fn conversion_controls_stay_apart(
    to: Seq<char>,
    category: Option<Seq<char>>,
    options: Seq<(Seq<char>, JsonV)>,
    targets: Seq<OutputTarget>,
)
    ensures
        member(JsonV::Object(conversion_entries(to, category, options, targets)), "target"@) == Some(
            JsonV::Str(to),
        ),
        member(JsonV::Object(conversion_entries(to, category, options, targets)), "category"@) == match category {
            Some(c) => Some(JsonV::Str(c)),
            None => None::<JsonV>,
        },
        member(JsonV::Object(conversion_entries(to, category, options, targets)), "options"@) == if options.len()
            > 0 {
            Some(JsonV::Object(options))
        } else {
            None
        },
        member(JsonV::Object(conversion_entries(to, category, options, targets)), "output_target"@) == if targets.len()
            > 0 {
            Some(JsonV::Array(target_values(targets)))
        } else {
            None
        },
{
    reveal_strlit("target");
    reveal_strlit("category");
    reveal_strlit("options");
    reveal_strlit("output_target");
    let kt = "target"@;
    let kc = "category"@;
    let ko = "options"@;
    let kx = "output_target"@;
    assert(kt[0] != kc[0] && kt[0] != ko[0] && kt[0] != kx[0] && kc[0] != ko[0] && kc[0] != kx[0]);
    assert(ko[1] != kx[1]);
    let e0: Seq<(Seq<char>, JsonV)> = Seq::empty();
    let a = inserted(e0, kt, JsonV::Str(to));
    assert forall|k: Seq<char>| #[trigger] lookup(e0, k) is None by {}
    lemma_inserted(e0, kt, JsonV::Str(to), kc);
    lemma_inserted(e0, kt, JsonV::Str(to), ko);
    lemma_inserted(e0, kt, JsonV::Str(to), kx);
    let b = match category {
        Some(c) => inserted(a, kc, JsonV::Str(c)),
        None => a,
    };
    if let Some(c) = category {
        lemma_inserted(a, kc, JsonV::Str(c), kt);
        lemma_inserted(a, kc, JsonV::Str(c), ko);
        lemma_inserted(a, kc, JsonV::Str(c), kx);
    }
    let c = if options.len() > 0 {
        inserted(b, ko, JsonV::Object(options))
    } else {
        b
    };
    if options.len() > 0 {
        lemma_inserted(b, ko, JsonV::Object(options), kt);
        lemma_inserted(b, ko, JsonV::Object(options), kc);
        lemma_inserted(b, ko, JsonV::Object(options), kx);
    }
    if targets.len() > 0 {
        lemma_inserted(c, kx, JsonV::Array(target_values(targets)), kt);
        lemma_inserted(c, kx, JsonV::Array(target_values(targets)), kc);
        lemma_inserted(c, kx, JsonV::Array(target_values(targets)), ko);
    }
}

} // verus!
