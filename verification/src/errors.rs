//! The typed error hierarchy: a single [`Api2ConvertError`] enum. No secret
//! ever appears in an error's text: it is built from the API response body's
//! `message`, a status description or fixed words, never from a header or a
//! URL.

use vstd::prelude::*;

use crate::json::{Json, JsonV};
use crate::models::{Job, JobMessage};
use crate::text::{decimal, decimal_string, push_all, push_str, string_from_chars};

verus! {

/// Shorthand for a `Result` whose error is [`Api2ConvertError`].
pub type Result<T> = core::result::Result<T, Api2ConvertError>;

/// Metadata shared by every HTTP error (status >= 400).
pub struct ApiErrorData {
    /// The HTTP status code.
    pub status: u16,
    /// The response body's `message`, else a description of the status.
    pub message: String,
    /// The `X-Request-Id` response header, if present.
    pub request_id: Option<String>,
    /// The decoded (and redacted) response body; `null` if empty / not JSON.
    pub body: Json,
}

/// Every error the library can produce.
#[non_exhaustive]
pub enum Api2ConvertError {
    /// Invalid usage or configuration surfaced without a network call.
    Config(String),
    /// A transport failure, a non-JSON 2xx body, or a redirect that was not
    /// followed because the request carried a secret.
    Network(String),
    /// 401 / 403.
    Authentication(ApiErrorData),
    /// 402.
    PaymentRequired(ApiErrorData),
    /// 404.
    NotFound(ApiErrorData),
    /// 400 / 422.
    Validation(ApiErrorData),
    /// 429. `retry_after` is the raw (uncapped) `Retry-After` in seconds.
    RateLimit { data: ApiErrorData, retry_after: Option<i64> },
    /// 5xx.
    Server(ApiErrorData),
    /// Any other status.
    Api(ApiErrorData),
    /// The job reached `failed` / `canceled`; carries the job and its `errors[]`.
    ConversionFailed { job: Box<Job>, errors: Vec<JobMessage> },
    /// The poll deadline elapsed before the job became terminal.
    ConversionTimeout { job: Box<Job> },
    /// Webhook signature verification failed.
    SignatureVerification(String),
}

/// The kinds of HTTP error, by status.
pub enum HttpErrorKind {
    Authentication,
    PaymentRequired,
    NotFound,
    Validation,
    RateLimit,
    Server,
    Api,
}

/// The kind of HTTP error a status maps to: 400/422 validation, 401/403
/// authentication, 402 payment, 404 not found, 429 rate limit, 5xx server,
/// any other status a generic API error.
pub open spec fn kind_of_status(status: u16) -> HttpErrorKind {
    if status == 401 || status == 403 {
        HttpErrorKind::Authentication
    } else if status == 402 {
        HttpErrorKind::PaymentRequired
    } else if status == 404 {
        HttpErrorKind::NotFound
    } else if status == 400 || status == 422 {
        HttpErrorKind::Validation
    } else if status == 429 {
        HttpErrorKind::RateLimit
    } else if 500 <= status <= 599 {
        HttpErrorKind::Server
    } else {
        HttpErrorKind::Api
    }
}

/// The HTTP metadata of an error, for the HTTP variants.
pub open spec fn http_data_of(e: Api2ConvertError) -> Option<ApiErrorData> {
    match e {
        Api2ConvertError::Authentication(d) => Some(d),
        Api2ConvertError::PaymentRequired(d) => Some(d),
        Api2ConvertError::NotFound(d) => Some(d),
        Api2ConvertError::Validation(d) => Some(d),
        Api2ConvertError::RateLimit { data, .. } => Some(data),
        Api2ConvertError::Server(d) => Some(d),
        Api2ConvertError::Api(d) => Some(d),
        _ => None,
    }
}

/// Whether `e` is the variant for `kind`, carrying `d`.
pub open spec fn is_http_error(e: Api2ConvertError, kind: HttpErrorKind, d: ApiErrorData) -> bool {
    match kind {
        HttpErrorKind::Authentication => e == Api2ConvertError::Authentication(d),
        HttpErrorKind::PaymentRequired => e == Api2ConvertError::PaymentRequired(d),
        HttpErrorKind::NotFound => e == Api2ConvertError::NotFound(d),
        HttpErrorKind::Validation => e == Api2ConvertError::Validation(d),
        HttpErrorKind::RateLimit => e == Api2ConvertError::RateLimit { data: d, retry_after: None },
        HttpErrorKind::Server => e == Api2ConvertError::Server(d),
        HttpErrorKind::Api => e == Api2ConvertError::Api(d),
    }
}

impl Api2ConvertError {
    /// The HTTP error for `status`, carrying its metadata (a rate limit
    /// starts without `retry_after`).
    pub fn api(status: u16, message: String, request_id: Option<String>, body: Json) -> (r: Self)
        ensures
            is_http_error(
                r,
                kind_of_status(status),
                ApiErrorData { status, message, request_id, body },
            ),
    {
        let data = ApiErrorData { status, message, request_id, body };
        if status == 401 || status == 403 {
            Api2ConvertError::Authentication(data)
        } else if status == 402 {
            Api2ConvertError::PaymentRequired(data)
        } else if status == 404 {
            Api2ConvertError::NotFound(data)
        } else if status == 400 || status == 422 {
            Api2ConvertError::Validation(data)
        } else if status == 429 {
            Api2ConvertError::RateLimit { data, retry_after: None }
        } else if 500 <= status && status <= 599 {
            Api2ConvertError::Server(data)
        } else {
            Api2ConvertError::Api(data)
        }
    }

    /// The HTTP metadata, for the HTTP variants.
    pub fn http_data(&self) -> (r: Option<&ApiErrorData>)
        ensures
            match http_data_of(*self) {
                Some(d) => r == Some(&d),
                None => r is None,
            },
    {
        match self {
            Api2ConvertError::Authentication(d) => Some(d),
            Api2ConvertError::PaymentRequired(d) => Some(d),
            Api2ConvertError::NotFound(d) => Some(d),
            Api2ConvertError::Validation(d) => Some(d),
            Api2ConvertError::Server(d) => Some(d),
            Api2ConvertError::Api(d) => Some(d),
            Api2ConvertError::RateLimit { data, .. } => Some(data),
            _ => None,
        }
    }

    /// The HTTP status code, for the HTTP variants.
    pub fn status(&self) -> (r: Option<u16>)
        ensures
            match http_data_of(*self) {
                Some(d) => r == Some(d.status),
                None => r is None,
            },
    {
        match self.http_data() {
            Some(d) => Some(d.status),
            None => None,
        }
    }

    /// The captured `X-Request-Id`, for the HTTP variants.
    pub fn request_id(&self) -> (r: Option<&str>)
        ensures
            match http_data_of(*self) {
                Some(d) => match d.request_id {
                    Some(id) => r matches Some(s) && s@ == id@,
                    None => r is None,
                },
                None => r is None,
            },
    {
        match self.http_data() {
            Some(d) => match &d.request_id {
                Some(id) => Some(id.as_str()),
                None => None,
            },
            None => None,
        }
    }

    /// The decoded response body, for the HTTP variants.
    pub fn body(&self) -> (r: Option<&Json>)
        ensures
            match http_data_of(*self) {
                Some(d) => r == Some(&d.body),
                None => r is None,
            },
    {
        match self.http_data() {
            Some(d) => Some(&d.body),
            None => None,
        }
    }

    /// The raw (uncapped) `Retry-After` seconds, only for a rate limit.
    pub fn retry_after(&self) -> (r: Option<i64>)
        ensures
            match *self {
                Api2ConvertError::RateLimit { retry_after, .. } => r == retry_after,
                _ => r is None,
            },
    {
        match self {
            Api2ConvertError::RateLimit { retry_after, .. } => *retry_after,
            _ => None,
        }
    }

    /// The error's human-readable text (what `Display` would print).
    pub fn message(&self) -> (r: String)
        ensures
            r@ == error_text(*self),
    {
        let mut out: Vec<char> = Vec::new();
        match self {
            Api2ConvertError::Config(m) => {
                push_str(&mut out, "configuration error: ");
                push_str(&mut out, m.as_str());
            },
            Api2ConvertError::Network(m) => {
                push_str(&mut out, "network error: ");
                push_str(&mut out, m.as_str());
            },
            Api2ConvertError::Authentication(d) => http_text(&mut out, "authentication error (", d),
            Api2ConvertError::PaymentRequired(d) => http_text(&mut out, "payment required (", d),
            Api2ConvertError::NotFound(d) => http_text(&mut out, "not found (", d),
            Api2ConvertError::Validation(d) => http_text(&mut out, "validation error (", d),
            Api2ConvertError::RateLimit { data, retry_after } => {
                http_text(&mut out, "rate limited (", data);
                match retry_after {
                    Some(s) => {
                        push_str(&mut out, " (retry after ");
                        let digits = signed_decimal(*s);
                        push_all(&mut out, &digits);
                        push_str(&mut out, "s)");
                    },
                    None => {},
                }
            },
            Api2ConvertError::Server(d) => http_text(&mut out, "server error (", d),
            Api2ConvertError::Api(d) => http_text(&mut out, "API error (", d),
            Api2ConvertError::ConversionFailed { job, errors } => {
                push_str(&mut out, "conversion failed (job ");
                push_str(&mut out, job.id.as_str());
                push_str(&mut out, "): ");
                if errors.len() > 0 {
                    push_str(&mut out, errors[0].message.as_str());
                } else {
                    match &job.status.info {
                        Some(info) => push_str(&mut out, info.as_str()),
                        None => {
                            push_str(&mut out, "status ");
                            push_str(&mut out, job.status.code.as_str());
                        },
                    }
                }
            },
            Api2ConvertError::ConversionTimeout { job } => {
                push_str(&mut out, "conversion timed out (job ");
                push_str(&mut out, job.id.as_str());
                push_str(&mut out, ", last status ");
                push_str(&mut out, job.status.code.as_str());
                push_str(&mut out, ")");
            },
            Api2ConvertError::SignatureVerification(m) => {
                push_str(&mut out, "signature verification failed: ");
                push_str(&mut out, m.as_str());
            },
        }
        string_from_chars(&out)
    }
}

/// `prefix`, the status, `): ` and the message.
pub open spec fn http_line(prefix: Seq<char>, d: ApiErrorData) -> Seq<char> {
    prefix + decimal(d.status as nat) + "): "@ + d.message@
}

fn http_text(out: &mut Vec<char>, prefix: &str, d: &ApiErrorData)
    requires
        old(out)@.len() == 0,
    ensures
        final(out)@ == http_line(prefix@, *d),
{
    push_str(out, prefix);
    let digits = decimal_string(d.status as u64);
    push_all(out, &digits);
    push_str(out, "): ");
    push_str(out, d.message.as_str());
}

/// The decimal rendering of a signed integer (`-` for negatives).
pub open spec fn signed_text(x: i64) -> Seq<char> {
    if x < 0 {
        seq!['-'] + decimal((-(x as int)) as nat)
    } else {
        decimal(x as nat)
    }
}

/// `i64::to_string`.
pub fn signed_decimal(x: i64) -> (r: Vec<char>)
    ensures
        r@ == signed_text(x),
{
    if x < 0 {
        let mag: u64 = if x == i64::MIN {
            9223372036854775808
        } else {
            (-x) as u64
        };
        let mut r: Vec<char> = Vec::new();
        r.push('-');
        let d = decimal_string(mag);
        push_all(&mut r, &d);
        r
    } else {
        decimal_string(x as u64)
    }
}

/// The text of an error.
pub open spec fn error_text(e: Api2ConvertError) -> Seq<char> {
    match e {
        Api2ConvertError::Config(m) => "configuration error: "@ + m@,
        Api2ConvertError::Network(m) => "network error: "@ + m@,
        Api2ConvertError::Authentication(d) => http_line("authentication error ("@, d),
        Api2ConvertError::PaymentRequired(d) => http_line("payment required ("@, d),
        Api2ConvertError::NotFound(d) => http_line("not found ("@, d),
        Api2ConvertError::Validation(d) => http_line("validation error ("@, d),
        Api2ConvertError::RateLimit { data, retry_after } => match retry_after {
            Some(s) => http_line("rate limited ("@, data) + " (retry after "@ + signed_text(s) + "s)"@,
            None => http_line("rate limited ("@, data),
        },
        Api2ConvertError::Server(d) => http_line("server error ("@, d),
        Api2ConvertError::Api(d) => http_line("API error ("@, d),
        Api2ConvertError::ConversionFailed { job, errors } => "conversion failed (job "@ + job.id@
            + "): "@ + if errors.len() > 0 {
            errors[0].message@
        } else {
            match job.status.info {
                Some(info) => info@,
                None => "status "@ + job.status.code@,
            }
        },
        Api2ConvertError::ConversionTimeout { job } => "conversion timed out (job "@ + job.id@
            + ", last status "@ + job.status.code@ + ")"@,
        Api2ConvertError::SignatureVerification(m) => "signature verification failed: "@ + m@,
    }
}

/// The text of an HTTP error depends only on its status, message and (for a
/// rate limit) `retry_after`: the request id and the body never reach it.
pub proof fn error_text_ignores_request_id_and_body(
    kind: HttpErrorKind,
    d1: ApiErrorData,
    d2: ApiErrorData,
    e1: Api2ConvertError,
    e2: Api2ConvertError,
)
    requires
        d1.status == d2.status,
        d1.message@ == d2.message@,
        is_http_error(e1, kind, d1),
        is_http_error(e2, kind, d2),
    ensures
        error_text(e1) == error_text(e2),
{
}

/// The variant an HTTP error status becomes, read off the error itself:
/// every status from 500 to 599 is a server error; 401 and 403 are
/// authentication errors, 402 payment, 404 not found, 400 and 422
/// validation, 429 a rate limit; any other status is a generic API error.
/// The error always carries the response's metadata.
pub proof fn http_error_variants(status: u16, d: ApiErrorData, e: Api2ConvertError)
    requires
        is_http_error(e, kind_of_status(status), d),
    ensures
        http_data_of(e) == Some(d),
        (500 <= status && status <= 599) <==> e is Server,
        (status == 401 || status == 403) <==> e is Authentication,
        status == 402 <==> e is PaymentRequired,
        status == 404 <==> e is NotFound,
        (status == 400 || status == 422) <==> e is Validation,
        status == 429 <==> e is RateLimit,
        e is Api <==> !(400 <= status && status <= 404) && status != 422 && status != 429 && !(500
            <= status && status <= 599),
{
}


} // verus!
