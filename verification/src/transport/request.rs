//! Requests as the transport builds them, and the decisions it takes on what
//! comes back: the retry policy, the redirect policy and the mapping of a
//! response to a value or a typed error.

use vstd::prelude::*;

use crate::errors::{kind_of_status, is_http_error, Api2ConvertError, ApiErrorData};
use crate::json::{member, owned, Json, JsonV};
use crate::redact::{redact_body, redacted};
use crate::text::{chars_of, decimal, decimal_string, lower_chars, lower_seq, push_all, push_str, starts_with, starts_with_exec, chars_from, string_from_chars};
use crate::transport::http::{first_value, Headers};
use crate::transport::retry_after::{retry_after_at, retry_after_value};
use crate::version::VERSION;

verus! {

/// A library-agnostic HTTP request.
pub struct HttpRequest {
    pub method: String,
    pub url: String,
    /// Header name/value pairs to set on the request.
    pub headers: Vec<(String, String)>,
    /// A fully materialized, replayable body (JSON requests).
    pub body: Option<Vec<u8>>,
    /// Whether redirects may be followed. Only the no-secret download path
    /// opts in.
    pub follow_redirects: bool,
    /// Whether the body can be re-sent; a request that cannot is never retried.
    pub replayable: bool,
    /// The total request timeout in nanoseconds, or `None` for no total cap.
    pub timeout_ns: Option<u64>,
}

/// The header pairs of a request, as character sequences.
pub open spec fn header_view(h: Seq<(String, String)>) -> Seq<(Seq<char>, Seq<char>)> {
    Seq::new(h.len(), |i: int| (h[i].0@, h[i].1@))
}

/// The `User-Agent` value: `api2convert-rust/{version} ({os})`.
pub open spec fn user_agent_text(os: Seq<char>) -> Seq<char> {
    "api2convert-rust/"@ + "10.2.0"@ + " ("@ + os + ")"@
}

/// The `User-Agent` value for the operating system `os`.
pub fn user_agent(os: &str) -> (r: String)
    ensures
        r@ == user_agent_text(os@),
{
    let mut out: Vec<char> = Vec::new();
    push_str(&mut out, "api2convert-rust/");
    push_str(&mut out, VERSION);
    push_str(&mut out, " (");
    push_str(&mut out, os);
    push_str(&mut out, ")");
    string_from_chars(&out)
}

/// A header pair.
fn header(name: &str, value: &str) -> (r: (String, String))
    ensures
        r.0@ == name@,
        r.1@ == value@,
{
    (owned(name), owned(value))
}

/// The headers of an account request: `Accept`, `User-Agent`, the account
/// key, `Content-Type` when there is a body, and `Idempotency-Key` when a
/// non-empty key is given.
pub open spec fn account_headers(
    api_key: Seq<char>,
    os: Seq<char>,
    has_body: bool,
    idempotency_key: Option<Seq<char>>,
) -> Seq<(Seq<char>, Seq<char>)> {
    let base = seq![
        ("Accept"@, "application/json"@),
        ("User-Agent"@, user_agent_text(os)),
        ("X-Oc-Api-Key"@, api_key),
    ];
    let with_type = if has_body {
        base.push(("Content-Type"@, "application/json"@))
    } else {
        base
    };
    match idempotency_key {
        Some(k) => if k.len() > 0 {
            with_type.push(("Idempotency-Key"@, k))
        } else {
            with_type
        },
        None => with_type,
    }
}

/// An account (JSON) request: authenticated with the account key, never
/// following redirects, replayable, with the configured timeout.
pub fn account_request(
    api_key: &str,
    os: &str,
    method: &str,
    url: String,
    body: Option<Vec<u8>>,
    idempotency_key: Option<&str>,
    timeout_ns: u64,
) -> (r: HttpRequest)
    ensures
        r.method@ == method@,
        r.url == url,
        header_view(r.headers@) == account_headers(
            api_key@,
            os@,
            body is Some,
            match idempotency_key {
                Some(k) => Some(k@),
                None => None,
            },
        ),
        r.body == body,
        !r.follow_redirects,
        r.replayable,
        r.timeout_ns == Some(timeout_ns),
{
    let mut headers: Vec<(String, String)> = Vec::new();
    headers.push(header("Accept", "application/json"));
    let ua = user_agent(os);
    headers.push(header("User-Agent", ua.as_str()));
    headers.push(header("X-Oc-Api-Key", api_key));
    if body.is_some() {
        headers.push(header("Content-Type", "application/json"));
    }
    match idempotency_key {
        Some(k) => {
            if k.unicode_len() > 0 {
                headers.push(header("Idempotency-Key", k));
            }
        },
        None => {},
    }
    let r = HttpRequest {
        method: owned(method),
        url,
        headers,
        body,
        follow_redirects: false,
        replayable: true,
        timeout_ns: Some(timeout_ns),
    };
    assert(header_view(r.headers@) =~= account_headers(
        api_key@,
        os@,
        r.body is Some,
        match idempotency_key {
            Some(k) => Some(k@),
            None => None,
        },
    ));
    r
}

/// Whether a header marks its request as secret-bearing: its name, lower-cased,
/// begins with `x-api2convert-` or `x-oc-`.
pub open spec fn secret_header(name: Seq<char>) -> bool {
    starts_with(lower_seq(name), "x-api2convert-"@) || starts_with(lower_seq(name), "x-oc-"@)
}

/// Whether any header of the request carries a secret.
pub open spec fn carries_secret(h: Seq<(Seq<char>, Seq<char>)>) -> bool {
    exists|i: int| 0 <= i < h.len() && secret_header(#[trigger] h[i].0)
}

fn secret_header_exec(name: &str) -> (r: bool)
    ensures
        r == secret_header(name@),
{
    let n = chars_of(name);
    let l = lower_chars(&n);
    starts_with_exec(&l, &chars_from("x-api2convert-")) || starts_with_exec(&l, &chars_from("x-oc-"))
}

/// Whether any header carries a secret (executable).
pub fn any_secret_header(headers: &Vec<(String, String)>) -> (r: bool)
    ensures
        r == carries_secret(header_view(headers@)),
{
    let ghost h = header_view(headers@);
    let mut i: usize = 0;
    while i < headers.len()
        invariant
            i <= headers@.len(),
            h == header_view(headers@),
            forall|k: int| 0 <= k < i ==> !secret_header(#[trigger] h[k].0),
        decreases headers@.len() - i,
    {
        assert(h[i as int].0 == headers@[i as int].0@);
        if secret_header_exec(headers[i].0.as_str()) {
            return true;
        }
        i = i + 1;
    }
    false
}

/// The headers of a download: `User-Agent`, and the download password when
/// a non-empty one is given.
pub open spec fn download_headers(os: Seq<char>, password: Option<Seq<char>>) -> Seq<(Seq<char>, Seq<char>)> {
    let base = seq![("User-Agent"@, user_agent_text(os))];
    match password {
        Some(p) => if p.len() > 0 {
            base.push(("X-Oc-Download-Password"@, p))
        } else {
            base
        },
        None => base,
    }
}

/// A download request for `uri`. It follows redirects only when it carries no
/// secret header; it has no total timeout.
pub fn download_request(uri: &str, password: Option<&str>, os: &str) -> (r: HttpRequest)
    ensures
        r.method@ == "GET"@,
        r.url@ == uri@,
        header_view(r.headers@) == download_headers(
            os@,
            match password {
                Some(p) => Some(p@),
                None => None,
            },
        ),
        r.follow_redirects == !carries_secret(header_view(r.headers@)),
        r.body is None,
        r.replayable,
        r.timeout_ns is None,
{
    let mut headers: Vec<(String, String)> = Vec::new();
    let ua = user_agent(os);
    headers.push(header("User-Agent", ua.as_str()));
    match password {
        Some(p) => {
            if p.unicode_len() > 0 {
                headers.push(header("X-Oc-Download-Password", p));
            }
        },
        None => {},
    }
    assert(header_view(headers@) =~= download_headers(
        os@,
        match password {
            Some(p) => Some(p@),
            None => None,
        },
    ));
    let secret = any_secret_header(&headers);
    HttpRequest {
        method: owned("GET"),
        url: owned(uri),
        headers,
        body: None,
        follow_redirects: !secret,
        replayable: true,
        timeout_ns: None,
    }
}

/// A download that carries a download password never follows a redirect.
pub proof fn password_download_never_follows_redirects(os: Seq<char>, password: Seq<char>)
    requires
        password.len() > 0,
    ensures
        carries_secret(download_headers(os, Some(password))),
{
    let h = download_headers(os, Some(password));
    assert(h[1].0 == "X-Oc-Download-Password"@);
    reveal_strlit("X-Oc-Download-Password");
    reveal_strlit("x-oc-");
    assert(lower_seq(h[1].0).subrange(0, 5) =~= "x-oc-"@);
    assert(secret_header(h[1].0));
}

/// An ASCII name compared without regard to case.
pub open spec fn same_name(a: Seq<char>, b: Seq<char>) -> bool {
    lower_seq(a) == lower_seq(b)
}

/// Whether a request may be safely re-sent: an idempotent method (`GET`,
/// `HEAD`, `PUT`, `DELETE`, `OPTIONS`, `TRACE`, in any case), or a non-empty
/// `Idempotency-Key` header.
pub open spec fn idempotent(method: Seq<char>, headers: Seq<(Seq<char>, Seq<char>)>) -> bool {
    let m = lower_seq(method);
    m == "get"@ || m == "head"@ || m == "put"@ || m == "delete"@ || m == "options"@ || m
        == "trace"@ || exists|i: int|
        0 <= i < headers.len() && lower_seq(#[trigger] headers[i].0) == "idempotency-key"@
            && headers[i].1.len() > 0
}

/// Whether a request may be safely re-sent.
pub fn is_idempotent(req: &HttpRequest) -> (r: bool)
    ensures
        r == idempotent(req.method@, header_view(req.headers@)),
{
    let m = chars_of(req.method.as_str());
    let l = lower_chars(&m);
    let method_ok = crate::text::chars_eq_str(&l, "get") || crate::text::chars_eq_str(&l, "head")
        || crate::text::chars_eq_str(&l, "put") || crate::text::chars_eq_str(&l, "delete")
        || crate::text::chars_eq_str(&l, "options") || crate::text::chars_eq_str(&l, "trace");
    if method_ok {
        return true;
    }
    let ghost h = header_view(req.headers@);
    let mut i: usize = 0;
    while i < req.headers.len()
        invariant
            i <= req.headers@.len(),
            h == header_view(req.headers@),
            forall|k: int|
                0 <= k < i ==> !(lower_seq(#[trigger] h[k].0) == "idempotency-key"@ && h[k].1.len() > 0),
        decreases req.headers@.len() - i,
    {
        let n = chars_of(req.headers[i].0.as_str());
        let ln = lower_chars(&n);
        if crate::text::chars_eq_str(&ln, "idempotency-key") && req.headers[i].1.as_str().unicode_len() > 0 {
            assert(h[i as int].0 == req.headers@[i as int].0@);
            assert(h[i as int].1 == req.headers@[i as int].1@);
            assert(lower_seq(h[i as int].0) == "idempotency-key"@ && h[i as int].1.len() > 0);
            return true;
        }
        i = i + 1;
    }
    false
}

/// The reason phrase of the statuses the API is known to answer with.
pub open spec fn reason_of(status: u16) -> Seq<char> {
    if status == 400 {
        "Bad Request"@
    } else if status == 401 {
        "Unauthorized"@
    } else if status == 402 {
        "Payment Required"@
    } else if status == 403 {
        "Forbidden"@
    } else if status == 404 {
        "Not Found"@
    } else if status == 409 {
        "Conflict"@
    } else if status == 422 {
        "Unprocessable Entity"@
    } else if status == 429 {
        "Too Many Requests"@
    } else if status == 500 {
        "Internal Server Error"@
    } else if status == 502 {
        "Bad Gateway"@
    } else if status == 503 {
        "Service Unavailable"@
    } else if status == 504 {
        "Gateway Timeout"@
    } else {
        ""@
    }
}

/// `HTTP {status} {reason}`, or `HTTP {status}` without a known reason.
pub open spec fn status_reason_text(status: u16) -> Seq<char> {
    if reason_of(status).len() == 0 {
        "HTTP "@ + decimal(status as nat)
    } else {
        "HTTP "@ + decimal(status as nat) + " "@ + reason_of(status)
    }
}

fn reason_exec(status: u16) -> (r: &'static str)
    ensures
        r@ == reason_of(status),
{
    if status == 400 {
        "Bad Request"
    } else if status == 401 {
        "Unauthorized"
    } else if status == 402 {
        "Payment Required"
    } else if status == 403 {
        "Forbidden"
    } else if status == 404 {
        "Not Found"
    } else if status == 409 {
        "Conflict"
    } else if status == 422 {
        "Unprocessable Entity"
    } else if status == 429 {
        "Too Many Requests"
    } else if status == 500 {
        "Internal Server Error"
    } else if status == 502 {
        "Bad Gateway"
    } else if status == 503 {
        "Service Unavailable"
    } else if status == 504 {
        "Gateway Timeout"
    } else {
        ""
    }
}

/// A description of a status, for errors whose body carries no message.
pub fn status_reason(status: u16) -> (r: String)
    ensures
        r@ == status_reason_text(status),
{
    let reason = reason_exec(status);
    let mut out: Vec<char> = Vec::new();
    push_str(&mut out, "HTTP ");
    let digits = decimal_string(status as u64);
    push_all(&mut out, &digits);
    if reason.unicode_len() > 0 {
        push_str(&mut out, " ");
        push_str(&mut out, reason);
    }
    string_from_chars(&out)
}

/// The `message` member of a body when it is a string, else the status
/// description.
pub open spec fn error_message(status: u16, body: JsonV) -> Seq<char> {
    match member(body, "message"@) {
        Some(JsonV::Str(m)) => m,
        _ => status_reason_text(status),
    }
}

/// The model of the body a response decoded to (`null` when it did not).
pub open spec fn body_or_null(parsed: Option<JsonV>) -> JsonV {
    match parsed {
        Some(v) => v,
        None => JsonV::Null,
    }
}

/// The `Retry-After` seconds captured on a rate-limit error.
pub open spec fn captured_retry_after(headers: Seq<(Seq<char>, Seq<char>)>, now: i64) -> Option<i64> {
    match first_value(headers, "retry-after"@) {
        Some(v) => match retry_after_value(v, now) {
            Some(secs) => Some(secs as i64),
            None => None,
        },
        None => None,
    }
}

/// `e` is the error a response with `status` (>= 400), `headers` and decoded
/// body `parsed` maps to when the clock reads `now`: the variant by status,
/// the redacted body, its `message` (else the status description), the
/// `X-Request-Id`, and for a rate limit the `Retry-After` seconds.
pub open spec fn error_for(
    e: Api2ConvertError,
    status: u16,
    headers: Seq<(Seq<char>, Seq<char>)>,
    parsed: Option<JsonV>,
    now: i64,
) -> bool {
    let body = redacted(body_or_null(parsed));
    match http_data_of_(e) {
        Some(d) => {
            &&& d.status == status
            &&& d.message@ == error_message(status, body)
            &&& d.body@ == body
            &&& crate::data::opt_chars(d.request_id) == first_value(headers, "x-request-id"@)
            &&& match kind_of_status(status) {
                crate::errors::HttpErrorKind::RateLimit => e == Api2ConvertError::RateLimit {
                    data: d,
                    retry_after: captured_retry_after(headers, now),
                },
                k => is_http_error(e, k, d),
            }
        },
        None => false,
    }
}

/// The HTTP metadata of an error (re-exported spec of [`crate::errors`]).
pub open spec fn http_data_of_(e: Api2ConvertError) -> Option<ApiErrorData> {
    crate::errors::http_data_of(e)
}

/// The typed error for a response with status `status` (>= 400). `parsed`
/// is the decoded body, `None` when it was empty or not JSON.
pub fn error_from(status: u16, headers: &Headers, parsed: Option<Json>, now: i64) -> (r: Api2ConvertError)
    ensures
        error_for(
            r,
            status,
            headers@,
            match parsed {
                Some(v) => Some(v@),
                None => None,
            },
            now,
        ),
{
    let raw = match parsed {
        Some(v) => v,
        None => Json::Null,
    };
    let body = redact_body(&raw);
    let message = match body.get("message") {
        Some(Json::Str(m)) => m.clone(),
        _ => status_reason(status),
    };
    let request_id = match headers.get("x-request-id") {
        Some(id) => Some(owned(id)),
        None => None,
    };
    proof {
        reveal_strlit("x-request-id");
        reveal_strlit("retry-after");
        assert(lower_seq("x-request-id"@) =~= "x-request-id"@);
        assert(lower_seq("retry-after"@) =~= "retry-after"@);
    }
    let err = Api2ConvertError::api(status, message, request_id, body);
    if status == 429 {
        match err {
            Api2ConvertError::RateLimit { data, .. } => {
                let retry_after = match headers.get("retry-after") {
                    Some(h) => match retry_after_at(h, now) {
                        Some(secs) => Some(secs as i64),
                        None => None,
                    },
                    None => None,
                };
                Api2ConvertError::RateLimit { data, retry_after }
            },
            other => other,
        }
    } else {
        err
    }
}

/// The outcome of one send: a response status with its `Retry-After`
/// header, or a transport failure.
pub enum SendOutcome {
    Response { status: u16, retry_after: Option<String> },
    Failure,
}

/// How long to wait before the next attempt.
pub enum RetryDelay {
    /// The server's `Retry-After`, capped at 120 seconds.
    Seconds(u64),
    /// Exponential backoff: this base (before the upward jitter of up to 25%).
    BackoffMillis(u64),
}

/// What to do after a send.
pub enum RetryStep {
    /// Hand the outcome to the caller.
    Deliver,
    /// Wait, then send again.
    Retry(RetryDelay),
}

/// The statuses worth retrying.
pub open spec fn retryable_status(status: u16) -> bool {
    status == 429 || status == 500 || status == 502 || status == 503 || status == 504
}

/// Whether attempt number `attempt` (counting from 1) is followed by another:
/// only while retries remain and the body can be replayed; `429` for every
/// method, `500/502/503/504` and transport failures only for idempotent
/// requests.
pub open spec fn should_retry(
    attempt: u32,
    max_retries: u32,
    outcome: SendOutcome,
    replayable: bool,
    idempotent: bool,
) -> bool {
    attempt <= max_retries && match outcome {
        SendOutcome::Response { status, .. } => retryable_status(status) && (if status == 429 {
            replayable
        } else {
            replayable && idempotent
        }),
        SendOutcome::Failure => replayable && idempotent,
    }
}

/// The exponential backoff base of attempt `attempt`: `500ms × 2^(attempt-1)`,
/// capped at 8 seconds.
pub open spec fn backoff_millis(attempt: u32) -> u64 {
    if attempt >= 5 {
        8000
    } else if attempt == 4 {
        4000
    } else if attempt == 3 {
        2000
    } else if attempt == 2 {
        1000
    } else {
        500
    }
}

/// The delay before retrying attempt `attempt`: the `Retry-After` value
/// (capped at 120 seconds) when it parses, else the backoff.
pub open spec fn retry_delay(attempt: u32, retry_after: Option<Seq<char>>, now: i64) -> RetryDelay {
    match retry_after {
        Some(h) => match retry_after_value(h, now) {
            Some(secs) => RetryDelay::Seconds(if secs > 120 {
                120
            } else {
                secs
            }),
            None => RetryDelay::BackoffMillis(backoff_millis(attempt)),
        },
        None => RetryDelay::BackoffMillis(backoff_millis(attempt)),
    }
}

/// The transport's decision after attempt `attempt` (counting from 1).
pub fn retry_step(
    attempt: u32,
    max_retries: u32,
    outcome: &SendOutcome,
    replayable: bool,
    idempotent: bool,
    now: i64,
) -> (r: RetryStep)
    ensures
        !should_retry(attempt, max_retries, *outcome, replayable, idempotent) ==> r
            == RetryStep::Deliver,
        should_retry(attempt, max_retries, *outcome, replayable, idempotent) ==> r == RetryStep::Retry(
            match *outcome {
                SendOutcome::Response { retry_after, .. } => retry_delay(
                    attempt,
                    match retry_after {
                        Some(h) => Some(h@),
                        None => None,
                    },
                    now,
                ),
                SendOutcome::Failure => RetryDelay::BackoffMillis(backoff_millis(attempt)),
            },
        ),
{
    if attempt > max_retries {
        return RetryStep::Deliver;
    }
    match outcome {
        SendOutcome::Response { status, retry_after } => {
            let s = *status;
            let retryable = s == 429 || s == 500 || s == 502 || s == 503 || s == 504;
            if !retryable {
                return RetryStep::Deliver;
            }
            let retry = if s == 429 {
                replayable
            } else {
                replayable && idempotent
            };
            if !retry {
                return RetryStep::Deliver;
            }
            let delay = match retry_after {
                Some(h) => match retry_after_at(h.as_str(), now) {
                    Some(secs) => RetryDelay::Seconds(
                        if secs > 120 {
                            120
                        } else {
                            secs
                        },
                    ),
                    None => RetryDelay::BackoffMillis(backoff(attempt)),
                },
                None => RetryDelay::BackoffMillis(backoff(attempt)),
            };
            RetryStep::Retry(delay)
        },
        SendOutcome::Failure => {
            if replayable && idempotent {
                RetryStep::Retry(RetryDelay::BackoffMillis(backoff(attempt)))
            } else {
                RetryStep::Deliver
            }
        },
    }
}

fn backoff(attempt: u32) -> (r: u64)
    ensures
        r == backoff_millis(attempt),
{
    if attempt >= 5 {
        8000
    } else if attempt == 4 {
        4000
    } else if attempt == 3 {
        2000
    } else if attempt == 2 {
        1000
    } else {
        500
    }
}

/// The retry policy's guarantees: no request is sent more than
/// `max_retries + 1` times, a body that cannot be replayed is never re-sent,
/// and a request that is not idempotent (a bare `POST`) is re-sent only on
/// `429`, never after a server error or a transport failure.
pub proof fn retry_policy_is_safe(
    attempt: u32,
    max_retries: u32,
    outcome: SendOutcome,
    replayable: bool,
    idempotent: bool,
)
    requires
        should_retry(attempt, max_retries, outcome, replayable, idempotent),
    ensures
        attempt <= max_retries,
        replayable,
        !idempotent ==> (outcome matches SendOutcome::Response { status, .. } && status == 429),
{
}

/// Which requests may be re-sent after a server error or a transport
/// failure: one that carries a non-empty `Idempotency-Key` header always;
/// otherwise exactly those whose method, in any case, is `GET`, `HEAD`,
/// `PUT`, `DELETE`, `OPTIONS` or `TRACE`. So a `POST` or `PATCH` without
/// the key is not idempotent, and whatever the attempt, the retry budget or
/// the body, it is never re-sent after anything but a `429`.
pub proof fn idempotency_is_by_method_or_key(
    method: Seq<char>,
    headers: Seq<(Seq<char>, Seq<char>)>,
    attempt: u32,
    max_retries: u32,
    outcome: SendOutcome,
    replayable: bool,
)
    ensures
        (exists|i: int|
            0 <= i < headers.len() && lower_seq(#[trigger] headers[i].0) == "idempotency-key"@
                && headers[i].1.len() > 0) ==> idempotent(method, headers),
        !(exists|i: int|
            0 <= i < headers.len() && lower_seq(#[trigger] headers[i].0) == "idempotency-key"@
                && headers[i].1.len() > 0) ==> (idempotent(method, headers) <==> seq![
            "get"@,
            "head"@,
            "put"@,
            "delete"@,
            "options"@,
            "trace"@,
        ].contains(lower_seq(method))),
        !(exists|i: int|
            0 <= i < headers.len() && lower_seq(#[trigger] headers[i].0) == "idempotency-key"@
                && headers[i].1.len() > 0) && (lower_seq(method) == "post"@ || lower_seq(method)
            == "patch"@) ==> !idempotent(method, headers) && (should_retry(
            attempt,
            max_retries,
            outcome,
            replayable,
            idempotent(method, headers),
        ) ==> (outcome matches SendOutcome::Response { status, .. } && status == 429)),
{
    reveal_strlit("get");
    reveal_strlit("head");
    reveal_strlit("put");
    reveal_strlit("delete");
    reveal_strlit("options");
    reveal_strlit("trace");
    reveal_strlit("post");
    reveal_strlit("patch");
    let names = seq!["get"@, "head"@, "put"@, "delete"@, "options"@, "trace"@];
    let l = lower_seq(method);
    assert(names.contains(l) <==> (l == "get"@ || l == "head"@ || l == "put"@ || l == "delete"@ || l
        == "options"@ || l == "trace"@)) by {
        if names.contains(l) {
            let j = choose|j: int| 0 <= j < names.len() && names[j] == l;
            assert(names[j] == l);
        }
        if l == "get"@ {
            assert(names[0] == l);
        } else if l == "head"@ {
            assert(names[1] == l);
        } else if l == "put"@ {
            assert(names[2] == l);
        } else if l == "delete"@ {
            assert(names[3] == l);
        } else if l == "options"@ {
            assert(names[4] == l);
        } else if l == "trace"@ {
            assert(names[5] == l);
        }
    }
    if l == "post"@ {
        assert(l.len() == 4 && l[0] == 'p');
        assert("head"@[0] == 'h');
    }
    if l == "patch"@ {
        assert(l.len() == 5 && l[0] == 'p');
        assert("trace"@[0] == 't');
    }
}

/// The number of sends a call makes, from attempt `attempt` on, when the
/// attempts come back with `outcomes` in turn: it stops at the first attempt
/// that is not followed by another (or at the last outcome given).
pub open spec fn sends_from(
    attempt: nat,
    max_retries: u32,
    outcomes: Seq<SendOutcome>,
    replayable: bool,
    idempotent: bool,
) -> nat
    decreases outcomes.len() - attempt,
{
    if attempt >= outcomes.len() || !should_retry(
        attempt as u32,
        max_retries,
        outcomes[attempt - 1],
        replayable,
        idempotent,
    ) {
        attempt
    } else {
        sends_from(attempt + 1, max_retries, outcomes, replayable, idempotent)
    }
}

proof fn lemma_sends_from(
    attempt: nat,
    max_retries: u32,
    outcomes: Seq<SendOutcome>,
    replayable: bool,
    idempotent: bool,
)
    requires
        1 <= attempt <= outcomes.len(),
        outcomes.len() == max_retries + 1,
    ensures
        attempt <= sends_from(attempt, max_retries, outcomes, replayable, idempotent) <= outcomes.len(),
        forall|i: nat|
            attempt <= i < sends_from(attempt, max_retries, outcomes, replayable, idempotent) ==> should_retry(
                i as u32,
                max_retries,
                #[trigger] outcomes[i - 1],
                replayable,
                idempotent,
            ),
        sends_from(attempt, max_retries, outcomes, replayable, idempotent) <= max_retries ==> !should_retry(
            sends_from(attempt, max_retries, outcomes, replayable, idempotent) as u32,
            max_retries,
            outcomes[sends_from(attempt, max_retries, outcomes, replayable, idempotent) - 1],
            replayable,
            idempotent,
        ),
    decreases outcomes.len() - attempt,
{
    if attempt < outcomes.len() && should_retry(
        attempt as u32,
        max_retries,
        outcomes[attempt - 1],
        replayable,
        idempotent,
    ) {
        lemma_sends_from(attempt + 1, max_retries, outcomes, replayable, idempotent);
    }
}

/// Over a whole call: whatever the attempts bring back, a request is sent at
/// least once and at most `max_retries + 1` times; every attempt but the last
/// is followed by another exactly as [`should_retry`] allows (so the caller
/// sleeps once per retry), the last one's outcome is handed back, and a body
/// that cannot be replayed is sent once. `outcomes` gives what each possible
/// attempt would bring back.
pub proof fn retry_loop_is_bounded(
    max_retries: u32,
    outcomes: Seq<SendOutcome>,
    replayable: bool,
    idempotent: bool,
)
    requires
        outcomes.len() == max_retries + 1,
    ensures
        1 <= sends_from(1, max_retries, outcomes, replayable, idempotent) <= max_retries + 1,
        forall|i: nat|
            1 <= i < sends_from(1, max_retries, outcomes, replayable, idempotent) ==> should_retry(
                i as u32,
                max_retries,
                #[trigger] outcomes[i - 1],
                replayable,
                idempotent,
            ),
        sends_from(1, max_retries, outcomes, replayable, idempotent) <= max_retries ==> !should_retry(
            sends_from(1, max_retries, outcomes, replayable, idempotent) as u32,
            max_retries,
            outcomes[sends_from(1, max_retries, outcomes, replayable, idempotent) - 1],
            replayable,
            idempotent,
        ),
        !replayable ==> sends_from(1, max_retries, outcomes, replayable, idempotent) == 1,
{
    lemma_sends_from(1, max_retries, outcomes, replayable, idempotent);
}

/// Every retry delay is bounded: at most 120 seconds from `Retry-After`,
/// and a backoff base between 500ms and 8 seconds.
pub proof fn retry_delay_is_bounded(attempt: u32, retry_after: Option<Seq<char>>, now: i64)
    ensures
        match retry_delay(attempt, retry_after, now) {
            RetryDelay::Seconds(s) => s <= 120,
            RetryDelay::BackoffMillis(ms) => 500 <= ms <= 8000,
        },
{
}

/// The backoff base doubles from one attempt to the next until the cap.
pub proof fn backoff_doubles_until_cap(attempt: u32)
    requires
        1 <= attempt < 5,
    ensures
        backoff_millis((attempt + 1) as u32) == 2 * backoff_millis(attempt),
{
}

/// When an attempt is followed by another: only while attempts remain
/// (`attempt <= max_retries`) and the body can be sent again; a `429` for any
/// request, a `500`, `502`, `503` or `504` or a transport failure only for an
/// idempotent request, and no other status ever.
pub proof fn retry_happens_exactly_when(
    attempt: u32,
    max_retries: u32,
    outcome: SendOutcome,
    replayable: bool,
    idempotent: bool,
)
    ensures
        should_retry(attempt, max_retries, outcome, replayable, idempotent) <==> attempt
            <= max_retries && replayable && match outcome {
            SendOutcome::Response { status, .. } => status == 429 || (idempotent && (status == 500
                || status == 502 || status == 503 || status == 504)),
            SendOutcome::Failure => idempotent,
        },
{
}

/// The wait before attempt `attempt + 1`: a `Retry-After` the response gives
/// (as a number of seconds or a date) is obeyed up to 120 seconds; without a
/// usable one, the backoff is 500ms for the first retry and doubles each time
/// up to 8 seconds (500ms × 2^(attempt - 1), capped).
pub proof fn retry_waits(attempt: u32, retry_after: Option<Seq<char>>, now: i64)
    requires
        attempt >= 1,
    ensures
        ({
            let backoff = RetryDelay::BackoffMillis(
                if attempt >= 5 {
                    8000
                } else {
                    (500 * crate::numbers::pow2n((attempt - 1) as nat)) as u64
                },
            );
            retry_delay(attempt, retry_after, now) == match retry_after {
                Some(h) => match retry_after_value(h, now) {
                    Some(secs) => RetryDelay::Seconds(
                        if secs > 120 {
                            120
                        } else {
                            secs
                        },
                    ),
                    None => backoff,
                },
                None => backoff,
            }
        }),
{
    reveal_with_fuel(crate::numbers::pow2n, 5);
}

/// The decision on a JSON response: a redirect (never followed on this path)
/// is a network error, a status >= 400 the typed error, an empty 2xx body an
/// empty object, a non-JSON 2xx body a network error, and otherwise the
/// decoded value.
pub open spec fn interpreted(
    r: crate::errors::Result<Json>,
    status: u16,
    body_empty: bool,
    headers: Seq<(Seq<char>, Seq<char>)>,
    parsed: Option<JsonV>,
    now: i64,
) -> bool {
    if 300 <= status < 400 {
        r matches Err(Api2ConvertError::Network(m)) && m@ == "the API responded with an unexpected redirect"@
    } else if status >= 400 {
        r matches Err(e) && error_for(e, status, headers, parsed, now)
    } else if body_empty {
        r matches Ok(v) && v@ == JsonV::Object(Seq::empty())
    } else {
        match parsed {
            Some(p) => r matches Ok(v) && v@ == p,
            None => r matches Err(Api2ConvertError::Network(m)) && m@
                == "the API returned a non-JSON response"@,
        }
    }
}

/// Decode a JSON response: `parsed` is the body decoded as JSON (`None`
/// when empty or not JSON).
pub fn interpret(status: u16, body_empty: bool, headers: &Headers, parsed: Option<Json>, now: i64) -> (r: crate::errors::Result<Json>)
    ensures
        interpreted(
            r,
            status,
            body_empty,
            headers@,
            match parsed {
                Some(v) => Some(v@),
                None => None,
            },
            now,
        ),
{
    if 300 <= status && status < 400 {
        return Err(Api2ConvertError::Network(owned("the API responded with an unexpected redirect")));
    }
    if status >= 400 {
        return Err(error_from(status, headers, parsed, now));
    }
    if body_empty {
        let empty: Vec<(String, Json)> = Vec::new();
        assert(crate::json::view_entries(empty@) =~= Seq::<(Seq<char>, JsonV)>::empty());
        return Ok(crate::json::object_of(empty));
    }
    match parsed {
        Some(v) => Ok(v),
        None => Err(Api2ConvertError::Network(owned("the API returned a non-JSON response"))),
    }
}

/// The decision on a download response: a redirect that was not followed
/// (the request carried a secret) is a network error, a status >= 400 the
/// typed error, anything else proceeds to the body.
pub fn check_download(status: u16, headers: &Headers, parsed: Option<Json>, now: i64) -> (r: crate::errors::Result<()>)
    ensures
        300 <= status < 400 ==> (r matches Err(Api2ConvertError::Network(m)) && m@
            == "the download did not resolve: a redirect was not followed because the request carried a secret header"@),
        status >= 400 ==> (r matches Err(e) && error_for(
            e,
            status,
            headers@,
            match parsed {
                Some(v) => Some(v@),
                None => None,
            },
            now,
        )),
        status < 300 ==> r is Ok,
{
    if 300 <= status && status < 400 {
        return Err(
            Api2ConvertError::Network(
                owned(
                    "the download did not resolve: a redirect was not followed because the request carried a secret header",
                ),
            ),
        );
    }
    if status >= 400 {
        return Err(error_from(status, headers, parsed, now));
    }
    Ok(())
}

/// How the HTTP client classified a transport failure.
pub struct FailureKind {
    pub timeout: bool,
    pub connect: bool,
    pub redirect: bool,
    pub request: bool,
    pub body: bool,
    pub decode: bool,
}

/// The description of a transport failure: a fixed text chosen by its kind
/// (the first that applies in this order), never the request URL, which may
/// carry a signed token.
pub open spec fn failure_text(k: FailureKind) -> Seq<char> {
    if k.timeout {
        "request timed out"@
    } else if k.connect {
        "connection failed"@
    } else if k.redirect {
        "too many redirects"@
    } else if k.request {
        "malformed request"@
    } else if k.body || k.decode {
        "failed to read response body"@
    } else {
        "transport error"@
    }
}

/// Describe a transport failure without echoing the URL.
pub fn failure_description(k: &FailureKind) -> (r: String)
    ensures
        r@ == failure_text(*k),
{
    if k.timeout {
        owned("request timed out")
    } else if k.connect {
        owned("connection failed")
    } else if k.redirect {
        owned("too many redirects")
    } else if k.request {
        owned("malformed request")
    } else if k.body || k.decode {
        owned("failed to read response body")
    } else {
        owned("transport error")
    }
}

} // verus!
