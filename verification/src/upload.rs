//! The multipart upload of a local file to a job's upload server. The
//! request posts `multipart/form-data` (a single `file` part) to
//! `{server}/upload-file/{job_id}` and is authenticated with the per-job
//! `X-Oc-Token` header, never the account key. One boundary serves every
//! attempt of a request, so `Content-Type` always matches the body.

use vstd::prelude::*;

use crate::config::{strip_trailing_slashes, trim_trailing_slashes};
use crate::errors::{Api2ConvertError, Result};
use crate::json::owned;
use crate::models::Job;
use crate::paths::{file_name_of, slashed};
use crate::data::opt_chars;
use crate::text::{chars_of, lower_seq, push_str, starts_with, string_from_chars, trim, trim_chars};
use crate::transport::encode::{encode_segment, pct_encoded};
use crate::transport::request::{header_view, secret_header, user_agent, user_agent_text, HttpRequest};
use vstd::utf8::encode_utf8;

verus! {

/// A character that cannot break out of a quoted `Content-Disposition`
/// parameter.
pub open spec fn header_safe(c: char) -> bool {
    c != '\r' && c != '\n' && c != '"' && c != '\0'
}

/// `s` without its carriage returns, line feeds, double quotes and NULs.
pub open spec fn header_safe_chars(s: Seq<char>) -> Seq<char>
    decreases s.len(),
{
    if s.len() == 0 {
        Seq::empty()
    } else {
        let rest = header_safe_chars(s.drop_last());
        if header_safe(s.last()) {
            rest.push(s.last())
        } else {
            rest
        }
    }
}

/// The advertised filename: `name` without header-breaking characters and
/// surrounding whitespace, or `file` when nothing is left.
pub open spec fn sanitized_name(name: Seq<char>) -> Seq<char> {
    let t = trim(header_safe_chars(name));
    if t.len() == 0 {
        "file"@
    } else {
        t
    }
}

/// Strip the characters that could inject into the `Content-Disposition`
/// header.
pub fn sanitize_filename(name: &str) -> (r: String)
    ensures
        r@ == sanitized_name(name@),
{
    let chars = chars_of(name);
    let mut kept: Vec<char> = Vec::new();
    let mut i: usize = 0;
    while i < chars.len()
        invariant
            i <= chars@.len(),
            kept@ == header_safe_chars(chars@.subrange(0, i as int)),
        decreases chars@.len() - i,
    {
        let c = chars[i];
        proof {
            assert(chars@.subrange(0, i + 1).drop_last() =~= chars@.subrange(0, i as int));
        }
        if c != '\r' && c != '\n' && c != '"' && c != '\0' {
            kept.push(c);
        }
        i = i + 1;
    }
    proof {
        assert(chars@.subrange(0, chars@.len() as int) =~= chars@);
    }
    let t = trim_chars(&kept);
    if t.len() == 0 {
        owned("file")
    } else {
        string_from_chars(&t)
    }
}

proof fn lemma_header_safe_chars(s: Seq<char>)
    ensures
        forall|i: int|
            0 <= i < header_safe_chars(s).len() ==> header_safe(#[trigger] header_safe_chars(s)[i]),
    decreases s.len(),
{
    if s.len() > 0 {
        lemma_header_safe_chars(s.drop_last());
        let rest = header_safe_chars(s.drop_last());
        assert forall|i: int| 0 <= i < header_safe_chars(s).len() implies header_safe(
            #[trigger] header_safe_chars(s)[i],
        ) by {
            if i < rest.len() {
                assert(header_safe_chars(s)[i] == rest[i]);
            }
        }
    }
}

/// The advertised filename is never empty and holds no carriage return, line
/// feed, double quote or NUL, whatever name it was made from: it cannot end
/// the quoted parameter or the header line.
pub proof fn sanitized_name_is_header_safe(name: Seq<char>)
    ensures
        sanitized_name(name).len() > 0,
        forall|i: int| 0 <= i < sanitized_name(name).len() ==> header_safe(#[trigger] sanitized_name(name)[i]),
{
    let kept = header_safe_chars(name);
    lemma_header_safe_chars(name);
    crate::text::lemma_trim_within(kept);
    let t = trim(kept);
    if t.len() == 0 {
        reveal_strlit("file");
        let f = "file"@;
        assert(f.len() == 4);
        assert(forall|i: int| 0 <= i < 4 ==> header_safe(#[trigger] f[i]));
    } else {
        assert forall|i: int| 0 <= i < t.len() implies header_safe(#[trigger] t[i]) by {
            let j = choose|j: int| 0 <= j < kept.len() && kept[j] == t[i];
            assert(header_safe(kept[j]));
        }
    }
}

/// The lower-case hexadecimal digit for `d < 16`.
pub open spec fn hex_lower(d: nat) -> char {
    if d < 10 {
        (('0' as u32) + d) as char
    } else {
        (('a' as u32) + d - 10) as char
    }
}

/// The last `k` hexadecimal digits of `x`, most significant first, padded
/// with zeros.
pub open spec fn hex_digits(x: nat, k: nat) -> Seq<char>
    decreases k,
{
    if k == 0 {
        Seq::empty()
    } else {
        hex_digits(x / 16, (k - 1) as nat).push(hex_lower(x % 16))
    }
}

/// The last `k` hexadecimal digits of `x`.
fn hex_digits_exec(x: u64, k: u32) -> (r: Vec<char>)
    ensures
        r@ == hex_digits(x as nat, k as nat),
    decreases k,
{
    if k == 0 {
        return Vec::new();
    }
    let d: u32 = (x % 16) as u32;
    let c = if d < 10 {
        crate::text::char_from_ascii(48 + d)
    } else {
        crate::text::char_from_ascii(87 + d)
    };
    let mut r = hex_digits_exec(x / 16, k - 1);
    r.push(c);
    r
}

/// A multipart boundary: `----api2convert`, then the 16 lower-case hex digits
/// of `stamp` and of `counter`.
pub open spec fn boundary_text(stamp: u64, counter: u64) -> Seq<char> {
    "----api2convert"@ + hex_digits(stamp as nat, 16) + hex_digits(counter as nat, 16)
}

/// The boundary made of a time stamp and a per-process counter (both taken
/// by the caller), unique for each request.
pub fn boundary(stamp: u64, counter: u64) -> (r: String)
    ensures
        r@ == boundary_text(stamp, counter),
{
    let mut out: Vec<char> = Vec::new();
    push_str(&mut out, "----api2convert");
    let a = hex_digits_exec(stamp, 16);
    crate::text::push_all(&mut out, &a);
    let b = hex_digits_exec(counter, 16);
    crate::text::push_all(&mut out, &b);
    string_from_chars(&out)
}

/// The text before the file's bytes: the opening boundary and the part's
/// headers.
pub open spec fn preamble_text(boundary: Seq<char>, filename: Seq<char>) -> Seq<char> {
    "--"@ + boundary + "\r\nContent-Disposition: form-data; name=\"file\"; filename=\""@ + filename
        + "\"\r\nContent-Type: application/octet-stream\r\n\r\n"@
}

/// The text after the file's bytes: the closing boundary.
pub open spec fn epilogue_text(boundary: Seq<char>) -> Seq<char> {
    "\r\n--"@ + boundary + "--\r\n"@
}

/// The request's `Content-Type`.
pub open spec fn content_type_text(boundary: Seq<char>) -> Seq<char> {
    "multipart/form-data; boundary="@ + boundary
}

/// Where a job's file is uploaded: the upload server without trailing `/`,
/// then `/upload-file/` and the encoded job id.
pub open spec fn upload_url(server: Seq<char>, job_id: Seq<char>) -> Seq<char> {
    strip_trailing_slashes(server) + "/upload-file/"@ + pct_encoded(encode_utf8(job_id))
}

/// The headers of an upload: the per-job token, the multipart content type
/// and the `User-Agent`.
pub open spec fn upload_headers(token: Seq<char>, boundary: Seq<char>, os: Seq<char>) -> Seq<
    (Seq<char>, Seq<char>),
> {
    seq![
        ("X-Oc-Token"@, token),
        ("Content-Type"@, content_type_text(boundary)),
        ("User-Agent"@, user_agent_text(os)),
    ]
}

/// What is uploaded. The bytes themselves stay with the caller, who streams
/// them after the preamble.
pub enum UploadSource {
    /// A file on disk; `exists` says whether it is there.
    Path { path: String, exists: bool },
    /// A remote URL, which cannot be uploaded.
    Url(String),
    /// An in-memory buffer.
    Bytes,
    /// A stream, readable once.
    Reader,
}

/// A prepared upload: the request, and the text to send before and after
/// the file's bytes.
pub struct UploadPlan {
    pub request: HttpRequest,
    pub preamble: String,
    pub epilogue: String,
}

/// A configuration error carrying `m`.
pub open spec fn is_config_error(e: Api2ConvertError, m: Seq<char>) -> bool {
    e matches Api2ConvertError::Config(s) && s@ == m
}

/// The name a source is advertised under when no filename is given: the last
/// component of a path that has one (components are separated by `/` or the
/// platform `separator`), else `file`.
pub open spec fn default_name(source: UploadSource, separator: char) -> Seq<char> {
    match source {
        UploadSource::Path { path, .. } => match file_name_of(slashed(path@, separator)) {
            Some(n) => n,
            None => "file"@,
        },
        _ => "file"@,
    }
}

/// Why an upload cannot be prepared, or `None` when it can: the job needs a
/// non-empty upload server and token, a URL is refused, and a path must
/// exist.
pub open spec fn upload_refusal(server: Option<Seq<char>>, token: Option<Seq<char>>, source: UploadSource) -> Option<
    Seq<char>,
> {
    if !(server matches Some(s) && s.len() > 0) {
        Some("cannot upload: the job has no upload server (create it with process:false first)"@)
    } else if !(token matches Some(t) && t.len() > 0) {
        Some("cannot upload: the job has no upload token"@)
    } else {
        match source {
            UploadSource::Url(_) => Some("cannot upload a URL; add it as a remote input instead"@),
            UploadSource::Path { path, exists } => if exists {
                None
            } else {
                Some("file not found: "@ + path@)
            },
            _ => None,
        }
    }
}

/// `plan` is the upload of `source` for `job`.
pub open spec fn planned_upload(
    plan: UploadPlan,
    job: Job,
    source: UploadSource,
    filename: Option<Seq<char>>,
    boundary: Seq<char>,
    os: Seq<char>,
    separator: char,
) -> bool {
    let name = sanitized_name(
        match filename {
            Some(f) => f,
            None => default_name(source, separator),
        },
    );
    &&& plan.request.method@ == "POST"@
    &&& plan.request.url@ == upload_url(opt_chars(job.server)->0, job.id@)
    &&& header_view(plan.request.headers@) == upload_headers(opt_chars(job.token)->0, boundary, os)
    &&& plan.request.body is None
    &&& !plan.request.follow_redirects
    &&& plan.request.replayable == !(source is Reader)
    &&& plan.request.timeout_ns is None
    &&& plan.preamble@ == preamble_text(boundary, name)
    &&& plan.epilogue@ == epilogue_text(boundary)
}

/// Prepare the upload of `source` to `job`'s upload server under
/// `filename` (else the source's own name), separated by `boundary`;
/// `separator` is the platform's path separator.
pub fn plan_upload(
    job: &Job,
    source: &UploadSource,
    filename: Option<&str>,
    boundary: &str,
    os: &str,
    separator: char,
) -> (r: Result<UploadPlan>)
    ensures
        match upload_refusal(opt_chars(job.server), opt_chars(job.token), *source) {
            Some(m) => r matches Err(e) && is_config_error(e, m),
            None => r matches Ok(plan) && planned_upload(
                plan,
                *job,
                *source,
                match filename {
                    Some(f) => Some(f@),
                    None => None,
                },
                boundary@,
                os@,
                separator,
            ),
        },
{
    let server = match &job.server {
        Some(s) if s.unicode_len() > 0 => s,
        _ => {
            return Err(
                Api2ConvertError::Config(
                    owned("cannot upload: the job has no upload server (create it with process:false first)"),
                ),
            );
        },
    };
    let token = match &job.token {
        Some(t) if t.unicode_len() > 0 => t,
        _ => {
            return Err(Api2ConvertError::Config(owned("cannot upload: the job has no upload token")));
        },
    };
    let (default, replayable) = match source {
        UploadSource::Url(_) => {
            return Err(
                Api2ConvertError::Config(owned("cannot upload a URL; add it as a remote input instead")),
            );
        },
        UploadSource::Path { path, exists } => {
            if !*exists {
                let mut m: Vec<char> = Vec::new();
                push_str(&mut m, "file not found: ");
                push_str(&mut m, path.as_str());
                return Err(Api2ConvertError::Config(string_from_chars(&m)));
            }
            let name = match crate::paths::file_name_sep(path.as_str(), separator) {
                Some(n) => n,
                None => owned("file"),
            };
            (name, true)
        },
        UploadSource::Bytes => (owned("file"), true),
        UploadSource::Reader => (owned("file"), false),
    };
    let fname = match filename {
        Some(f) => sanitize_filename(f),
        None => sanitize_filename(default.as_str()),
    };
    let mut pre: Vec<char> = Vec::new();
    push_str(&mut pre, "--");
    push_str(&mut pre, boundary);
    push_str(&mut pre, "\r\nContent-Disposition: form-data; name=\"file\"; filename=\"");
    push_str(&mut pre, fname.as_str());
    push_str(&mut pre, "\"\r\nContent-Type: application/octet-stream\r\n\r\n");
    let mut epi: Vec<char> = Vec::new();
    push_str(&mut epi, "\r\n--");
    push_str(&mut epi, boundary);
    push_str(&mut epi, "--\r\n");
    let mut ct: Vec<char> = Vec::new();
    push_str(&mut ct, "multipart/form-data; boundary=");
    push_str(&mut ct, boundary);
    let content_type = string_from_chars(&ct);
    let mut url: Vec<char> = Vec::new();
    let base = trim_trailing_slashes(server.as_str());
    push_str(&mut url, base.as_str());
    push_str(&mut url, "/upload-file/");
    let id = encode_segment(job.id.as_str());
    push_str(&mut url, id.as_str());
    let mut headers: Vec<(String, String)> = Vec::new();
    headers.push((owned("X-Oc-Token"), owned(token.as_str())));
    headers.push((owned("Content-Type"), content_type));
    headers.push((owned("User-Agent"), user_agent(os)));
    let request = HttpRequest {
        method: owned("POST"),
        url: string_from_chars(&url),
        headers,
        body: None,
        follow_redirects: false,
        replayable,
        timeout_ns: None,
    };
    proof {
        assert(header_view(request.headers@) =~= upload_headers(token@, boundary@, os@));
    }
    Ok(UploadPlan { request, preamble: string_from_chars(&pre), epilogue: string_from_chars(&epi) })
}

/// An upload is authenticated with the per-job token alone: its token
/// header marks it as secret-bearing (so it never follows a redirect), and
/// no header carries the account key, under the name `X-Oc-Api-Key` that
/// account requests use or its alias `X-Api2convert-Api-Key`, in any case.
pub proof fn upload_never_sends_the_account_key(token: Seq<char>, boundary: Seq<char>, os: Seq<char>)
    ensures
        secret_header(upload_headers(token, boundary, os)[0].0),
        forall|i: int|
            0 <= i < upload_headers(token, boundary, os).len() ==> lower_seq(
                #[trigger] upload_headers(token, boundary, os)[i].0,
            ) != "x-api2convert-api-key"@ && lower_seq(upload_headers(token, boundary, os)[i].0)
                != "x-oc-api-key"@,
{
    let h = upload_headers(token, boundary, os);
    reveal_strlit("X-Oc-Token");
    reveal_strlit("Content-Type");
    reveal_strlit("User-Agent");
    reveal_strlit("x-oc-");
    reveal_strlit("x-api2convert-api-key");
    reveal_strlit("x-oc-api-key");
    assert(lower_seq(h[0].0).subrange(0, 5) =~= "x-oc-"@);
    assert forall|i: int| 0 <= i < h.len() implies lower_seq(#[trigger] h[i].0) != "x-api2convert-api-key"@
        && lower_seq(h[i].0) != "x-oc-api-key"@ by {
        if i == 0 {
            assert(lower_seq(h[0].0).len() == 10);
        } else if i == 1 {
            assert(lower_seq(h[1].0).len() == 12);
            assert(lower_seq(h[1].0)[0] == 'c');
        } else {
            assert(lower_seq(h[2].0).len() == 10);
        }
    }
}

} // verus!
