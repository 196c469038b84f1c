use api2convert::json::{Json, JsonNumber};
use serde_json::Value;

/// A value of the library's JSON model from a decoded `serde_json` value.
fn to_json(v: &Value) -> Json {
    match v {
        Value::Null => Json::Null,
        Value::Bool(b) => Json::Bool(*b),
        Value::Number(n) => {
            if let Some(u) = n.as_u64() {
                Json::Number(JsonNumber::PosInt(u))
            } else if let Some(i) = n.as_i64() {
                Json::Number(JsonNumber::NegInt(i))
            } else {
                Json::Number(JsonNumber::Float(n.as_f64().unwrap().to_bits()))
            }
        }
        Value::String(s) => Json::Str(s.clone()),
        Value::Array(items) => Json::Array(items.iter().map(to_json).collect()),
        Value::Object(m) => Json::Object(m.iter().map(|(k, x)| (k.clone(), to_json(x))).collect()),
    }
}

/// The `serde_json` value of a library JSON value.
fn to_value(v: &Json) -> Value {
    match v {
        Json::Null => Value::Null,
        Json::Bool(b) => Value::Bool(*b),
        Json::Number(JsonNumber::PosInt(u)) => Value::from(*u),
        Json::Number(JsonNumber::NegInt(i)) => Value::from(*i),
        Json::Number(JsonNumber::Float(bits)) => Value::from(f64::from_bits(*bits)),
        Json::Str(s) => Value::String(s.clone()),
        Json::Array(items) => Value::Array(items.iter().map(to_value).collect()),
        Json::Object(entries) => {
            let mut m = serde_json::Map::new();
            for (k, x) in entries {
                m.insert(k.clone(), to_value(x));
            }
            Value::Object(m)
        }
    }
}

/// Parse JSON text into the library's model.
fn j(text: &str) -> Json {
    to_json(&serde_json::from_str::<Value>(text).expect("valid JSON in test"))
}

/// The entries of a JSON object written as text.
fn entries(text: &str) -> Vec<(String, Json)> {
    match j(text) {
        Json::Object(e) => e,
        _ => panic!("not an object"),
    }
}

/// The compact text of a value.
fn render(v: &Json) -> String {
    to_value(v).to_string()
}

/// A string value.
fn s(text: &str) -> Json {
    Json::Str(text.to_string())
}

use api2convert::errors::Api2ConvertError;
use api2convert::resources::{job_path, jobs_query, stats_path};
use api2convert::transport::encode::{build_url, encode_segment, pct_encode};
use api2convert::transport::http::Headers;
use api2convert::transport::request::{
    account_request, download_request, error_from, failure_description, interpret, is_idempotent,
    retry_step, status_reason, user_agent, FailureKind, HttpRequest, RetryDelay, RetryStep,
    SendOutcome,
};
use api2convert::transport::retry_after::{
    days_from_civil, month_num, parse_http_date, parse_retry_after, retry_after_at,
};

fn header<'a>(req: &'a HttpRequest, name: &str) -> Option<&'a str> {
    req.headers
        .iter()
        .find(|(k, _)| k.eq_ignore_ascii_case(name))
        .map(|(_, v)| v.as_str())
}

fn get_request(path: &str) -> HttpRequest {
    let url = build_url("http://api.test", path, &Vec::new());
    account_request("test-key", "linux", "GET", url, None, None, 30_000_000_000)
}

fn post_request(key: Option<&str>) -> HttpRequest {
    let url = build_url("http://api.test", "jobs", &Vec::new());
    account_request("test-key", "linux", "POST", url, Some(b"{}".to_vec()), key, 30_000_000_000)
}

fn response(status: u16) -> SendOutcome {
    SendOutcome::Response { status, retry_after: None }
}

fn decide(req: &HttpRequest, attempt: u32, outcome: &SendOutcome) -> RetryStep {
    retry_step(attempt, 2, outcome, req.replayable, is_idempotent(req), 0)
}

fn boom_error(status: u16, extra: Vec<(&str, &str)>) -> Api2ConvertError {
    let mut headers = Headers::new();
    headers.insert("content-type", "application/json");
    for (k, v) in extra {
        headers.insert(k, v);
    }
    error_from(status, &headers, Some(j(r#"{"message": "boom"}"#)), 0)
}

#[test]
fn pct_encode_keeps_unreserved_and_escapes_the_rest() {
    assert_eq!(pct_encode("abcABC123-._~"), "abcABC123-._~");
    assert_eq!(pct_encode("a b/c?d"), "a%20b%2Fc%3Fd");
    assert_eq!(encode_segment("../evil"), "..%2Fevil");
}

#[test]
fn pct_encode_escapes_every_byte_of_a_multibyte_character() {
    assert_eq!(pct_encode("é"), "%C3%A9");
    assert_eq!(pct_encode("%&=#"), "%25%26%3D%23");
}

#[test]
fn retry_after_seconds_form() {
    assert_eq!(parse_retry_after("5"), Some(5));
    assert_eq!(parse_retry_after("  0 "), Some(0));
    assert_eq!(parse_retry_after("-3"), Some(0));
    assert_eq!(parse_retry_after("garbage"), None);
}

#[test]
fn retry_after_date_form_counts_from_now() {
    let now = 1_445_412_480 - 30;
    assert_eq!(retry_after_at("Wed, 21 Oct 2015 07:28:00 GMT", now), Some(30));
    assert_eq!(retry_after_at("Wed, 21 Oct 2015 07:28:00 GMT", now + 100), Some(0));
    assert_eq!(parse_retry_after("Wed, 21 Oct 2015 07:28:00 GMT"), Some(0));
}

#[test]
fn days_from_civil_known_dates() {
    assert_eq!(days_from_civil(1970, 1, 1), 0);
    assert_eq!(days_from_civil(1970, 1, 2), 1);
    assert_eq!(days_from_civil(2000, 1, 1), 10957);
}

#[test]
fn days_from_civil_more_dates() {
    assert_eq!(days_from_civil(1969, 12, 31), -1);
    assert_eq!(days_from_civil(2000, 3, 1), 11017);
    assert_eq!(days_from_civil(2024, 2, 29), 19782);
    assert_eq!(days_from_civil(0, 3, 1), -719468);
}

#[test]
fn month_names() {
    assert_eq!(month_num("Jan"), Some(1));
    assert_eq!(month_num("Dec"), Some(12));
    assert_eq!(month_num("jan"), None);
    assert_eq!(month_num("January"), None);
}

#[test]
fn http_date_parses_to_unix_seconds() {
    assert_eq!(parse_http_date("Wed, 21 Oct 2015 07:28:00 GMT"), Some(1_445_412_480));
    assert_eq!(parse_http_date("not a date"), None);
}

#[test]
fn http_date_rejects_absurd_values_without_overflowing() {
    assert_eq!(parse_http_date("Mon, 01 Jan 300000000000 00:00:00 GMT"), None);
    assert_eq!(parse_http_date("Mon, 01 Jan 99999999999999999 00:00:00 GMT"), None);
    assert_eq!(parse_http_date("Mon, 99 Jan 2020 00:00:00 GMT"), None);
    assert_eq!(parse_http_date("Mon, 01 Jan 2020 9223372036854775807:00:00 GMT"), None);
}

#[test]
fn idempotency_rules() {
    let mk = |method: &str, headers: Vec<(String, String)>| HttpRequest {
        method: method.to_string(),
        url: "http://x".to_string(),
        headers,
        body: None,
        follow_redirects: false,
        replayable: true,
        timeout_ns: None,
    };
    assert!(is_idempotent(&mk("GET", vec![])));
    assert!(is_idempotent(&mk("delete", vec![])));
    assert!(!is_idempotent(&mk("POST", vec![])));
    assert!(is_idempotent(&mk("POST", vec![("Idempotency-Key".into(), "abc".into())])));
    assert!(!is_idempotent(&mk("POST", vec![("Idempotency-Key".into(), "".into())])));
}

#[test]
fn status_reasons() {
    assert_eq!(status_reason(404), "HTTP 404 Not Found");
    assert_eq!(status_reason(429), "HTTP 429 Too Many Requests");
    assert_eq!(status_reason(418), "HTTP 418");
}

#[test]
fn unexpected_redirect_on_json_path_is_a_network_error() {
    let mut headers = Headers::new();
    headers.insert("location", "https://elsewhere.example/x");
    assert!(matches!(
        interpret(302, true, &headers, None, 0),
        Err(Api2ConvertError::Network(_))
    ));
}

#[test]
fn non_json_2xx_is_a_network_error() {
    assert!(matches!(
        interpret(200, false, &Headers::new(), None, 0),
        Err(Api2ConvertError::Network(_))
    ));
}

#[test]
fn empty_2xx_body_is_accepted() {
    match interpret(200, true, &Headers::new(), None, 0) {
        Ok(v) => assert_eq!(v, j("{}")),
        Err(_) => panic!("an empty 2xx body is an empty object"),
    }
    match interpret(201, false, &Headers::new(), Some(j(r#"{"id": "x"}"#)), 0) {
        Ok(v) => assert_eq!(v, j(r#"{"id": "x"}"#)),
        Err(_) => panic!("a JSON 2xx body is the value"),
    }
}

#[test]
fn idempotency_key_header_is_sent_when_provided() {
    let req = post_request(Some("idem-key-123"));
    assert_eq!(header(&req, "idempotency-key"), Some("idem-key-123"));
}

#[test]
fn idempotency_key_header_absent_by_default() {
    assert!(header(&post_request(None), "idempotency-key").is_none());
    assert!(header(&post_request(Some("")), "idempotency-key").is_none());
}

#[test]
fn account_requests_carry_the_standard_headers() {
    let req = get_request(&job_path("job1"));
    assert_eq!(header(&req, "x-oc-api-key"), Some("test-key"));
    assert_eq!(header(&req, "accept"), Some("application/json"));
    assert!(header(&req, "user-agent").unwrap().starts_with("api2convert-rust/"));
    assert_eq!(user_agent("linux"), "api2convert-rust/10.2.0 (linux)");
    assert!(header(&req, "content-type").is_none());
    assert_eq!(header(&post_request(None), "content-type"), Some("application/json"));
    assert_eq!(req.timeout_ns, Some(30_000_000_000));
    assert!(req.replayable);
}

#[test]
fn maps_status_codes_to_variants() {
    assert!(matches!(boom_error(401, vec![]), Api2ConvertError::Authentication(_)));
    assert!(matches!(boom_error(403, vec![]), Api2ConvertError::Authentication(_)));
    assert!(matches!(boom_error(402, vec![]), Api2ConvertError::PaymentRequired(_)));
    assert!(matches!(boom_error(404, vec![]), Api2ConvertError::NotFound(_)));
    assert!(matches!(boom_error(400, vec![]), Api2ConvertError::Validation(_)));
    assert!(matches!(boom_error(422, vec![]), Api2ConvertError::Validation(_)));
    assert!(matches!(boom_error(500, vec![]), Api2ConvertError::Server(_)));
    assert!(matches!(boom_error(418, vec![]), Api2ConvertError::Api(_)));
}

#[test]
fn exposes_status_message_and_request_id() {
    let err = boom_error(404, vec![("x-request-id", "req-abc")]);
    assert_eq!(err.status(), Some(404));
    assert_eq!(err.request_id(), Some("req-abc"));
    match err {
        Api2ConvertError::NotFound(d) => assert_eq!(d.message, "boom"),
        _ => panic!("wrong variant"),
    }
}

#[test]
fn message_falls_back_to_the_status_description() {
    let err = error_from(503, &Headers::new(), None, 0);
    assert_eq!(err.message(), "server error (503): HTTP 503 Service Unavailable");
    assert_eq!(err.body(), Some(&Json::Null));
    match err {
        Api2ConvertError::Server(d) => assert_eq!(d.message, "HTTP 503 Service Unavailable"),
        _ => panic!("a 503 is a server error"),
    }
    let limited = boom_error(429, vec![("retry-after", "17")]);
    assert_eq!(limited.message(), "rate limited (429): boom (retry after 17s)");
}

#[test]
fn rate_limit_exposes_retry_after() {
    let err = boom_error(429, vec![("retry-after", "17")]);
    assert!(matches!(err, Api2ConvertError::RateLimit { .. }));
    assert_eq!(err.status(), Some(429));
    assert_eq!(err.retry_after(), Some(17));
}

#[test]
fn idempotent_get_retries_on_503_then_succeeds() {
    let req = get_request(&job_path("job1"));
    assert!(matches!(
        decide(&req, 1, &response(503)),
        RetryStep::Retry(RetryDelay::BackoffMillis(500))
    ));
    assert!(matches!(decide(&req, 2, &response(200)), RetryStep::Deliver));
}

#[test]
fn bare_post_is_not_retried_on_503() {
    let req = post_request(None);
    assert!(matches!(decide(&req, 1, &response(503)), RetryStep::Deliver));
    assert!(matches!(
        interpret(503, true, &Headers::new(), None, 0),
        Err(Api2ConvertError::Server(_))
    ));
}

#[test]
fn post_with_idempotency_key_retries() {
    let req = post_request(Some("idem-1"));
    assert!(matches!(decide(&req, 1, &response(503)), RetryStep::Retry(_)));
}

#[test]
fn post_retries_on_429_for_any_method() {
    let req = post_request(None);
    assert!(matches!(decide(&req, 1, &response(429)), RetryStep::Retry(_)));
}

#[test]
fn retries_on_502_and_504() {
    let req = get_request(&job_path("job1"));
    assert!(matches!(decide(&req, 1, &response(502)), RetryStep::Retry(_)));
    assert!(matches!(decide(&req, 2, &response(504)), RetryStep::Retry(_)));
    assert!(matches!(decide(&req, 3, &response(504)), RetryStep::Deliver));
    assert!(matches!(decide(&req, 1, &response(501)), RetryStep::Deliver));
}

#[test]
fn idempotent_get_retries_on_a_network_error() {
    let req = get_request(&job_path("job1"));
    assert!(matches!(
        decide(&req, 1, &SendOutcome::Failure),
        RetryStep::Retry(RetryDelay::BackoffMillis(500))
    ));
}

#[test]
fn bare_post_is_not_retried_on_a_network_error() {
    let req = post_request(None);
    assert!(matches!(decide(&req, 1, &SendOutcome::Failure), RetryStep::Deliver));
}

#[test]
fn backoff_grows_across_two_retries() {
    let req = get_request(&job_path("job1"));
    assert!(matches!(
        decide(&req, 1, &response(503)),
        RetryStep::Retry(RetryDelay::BackoffMillis(500))
    ));
    assert!(matches!(
        decide(&req, 2, &response(503)),
        RetryStep::Retry(RetryDelay::BackoffMillis(1000))
    ));
    let outcome = SendOutcome::Failure;
    assert!(matches!(
        retry_step(7, 9, &outcome, true, true, 0),
        RetryStep::Retry(RetryDelay::BackoffMillis(8000))
    ));
}

#[test]
fn retry_after_header_sets_the_delay_up_to_two_minutes() {
    let req = post_request(None);
    let hinted = SendOutcome::Response { status: 429, retry_after: Some("7".to_string()) };
    assert!(matches!(decide(&req, 1, &hinted), RetryStep::Retry(RetryDelay::Seconds(7))));
    let long = SendOutcome::Response { status: 429, retry_after: Some("3600".to_string()) };
    assert!(matches!(decide(&req, 1, &long), RetryStep::Retry(RetryDelay::Seconds(120))));
    let junk = SendOutcome::Response { status: 429, retry_after: Some("soon".to_string()) };
    assert!(matches!(decide(&req, 2, &junk), RetryStep::Retry(RetryDelay::BackoffMillis(1000))));
}

#[test]
fn account_key_is_not_forwarded_across_a_redirect() {
    let req = post_request(None);
    assert!(!req.follow_redirects);
    assert!(matches!(
        interpret(302, true, &Headers::new(), None, 0),
        Err(Api2ConvertError::Network(_))
    ));
}

#[test]
fn download_password_is_not_forwarded_across_a_redirect() {
    let req = download_request("http://storage.test/file", Some("dl-secret"), "linux");
    assert!(!req.follow_redirects);
    assert_eq!(header(&req, "x-oc-download-password"), Some("dl-secret"));
    assert!(header(&req, "x-api2convert-api-key").is_none());
    assert!(header(&req, "x-oc-api-key").is_none());
}

#[test]
fn passwordless_download_follows_a_storage_redirect() {
    let req = download_request("http://storage.test/file", None, "linux");
    assert!(req.follow_redirects);
    assert_eq!(req.method, "GET");
    assert_eq!(req.url, "http://storage.test/file");
    assert!(req.timeout_ns.is_none());
    let empty = download_request("http://storage.test/file", Some(""), "linux");
    assert!(empty.follow_redirects);
    assert!(header(&empty, "x-oc-download-password").is_none());
}

#[test]
fn job_id_segment_is_encoded() {
    let req = get_request(&job_path("weird id/../x"));
    assert_eq!(req.url, "http://api.test/jobs/weird%20id%2F..%2Fx");
}

#[test]
fn stats_path_is_built_from_segments() {
    let url = build_url("http://api.test", &stats_path("day", "2026-07-06", None), &Vec::new());
    assert_eq!(url, "http://api.test/stats/day/2026-07-06/all");
}

#[test]
fn list_query_is_encoded() {
    let url = build_url("http://api.test", "jobs", &jobs_query(Some("completed"), Some(2)));
    assert!(url.starts_with("http://api.test/jobs?"));
    assert!(url.contains("page=2"));
    assert!(url.contains("status=completed"));
    assert_eq!(url, "http://api.test/jobs?page=2&status=completed");
    let spaced = build_url("http://api.test/", "/x", &vec![("a b".to_string(), "c&d".to_string())]);
    assert_eq!(spaced, "http://api.test//x?a%20b=c%26d");
}

#[test]
fn response_headers_are_case_insensitive() {
    let mut h = Headers::new();
    h.insert("Retry-After", "5");
    h.insert("retry-after", "9");
    assert_eq!(h.get("RETRY-AFTER"), Some("5"));
    assert_eq!(h.get("x-missing"), None);
    assert_eq!(h.len(), 2);
}

#[test]
fn transport_failures_are_described_without_the_url() {
    let none = FailureKind { timeout: false, connect: false, redirect: false, request: false, body: false, decode: false };
    assert_eq!(failure_description(&none), "transport error");
    assert_eq!(failure_description(&FailureKind { timeout: true, connect: true, ..none }), "request timed out");
    assert_eq!(failure_description(&FailureKind { connect: true, ..none }), "connection failed");
    assert_eq!(failure_description(&FailureKind { redirect: true, ..none }), "too many redirects");
    assert_eq!(failure_description(&FailureKind { request: true, decode: true, ..none }), "malformed request");
    assert_eq!(failure_description(&FailureKind { decode: true, ..none }), "failed to read response body");
}

#[test]
fn consecutive_dates_are_consecutive_days() {
    assert_eq!(days_from_civil(2024, 2, 29) + 1, days_from_civil(2024, 3, 1));
    assert_eq!(days_from_civil(2024, 2, 28) + 1, days_from_civil(2024, 2, 29));
    assert_eq!(days_from_civil(2023, 2, 28) + 1, days_from_civil(2023, 3, 1));
    assert_eq!(days_from_civil(2100, 2, 28) + 1, days_from_civil(2100, 3, 1));
    assert_eq!(days_from_civil(2000, 2, 29) + 1, days_from_civil(2000, 3, 1));
    assert_eq!(days_from_civil(1999, 12, 31) + 1, days_from_civil(2000, 1, 1));
    assert_eq!(days_from_civil(2015, 4, 30) + 1, days_from_civil(2015, 5, 1));
    assert_eq!(days_from_civil(-1, 12, 31) + 1, days_from_civil(0, 1, 1));
    assert_eq!(days_from_civil(0, 2, 29) + 1, days_from_civil(0, 3, 1));
    assert_eq!(days_from_civil(-100, 2, 28) + 1, days_from_civil(-100, 3, 1));
}

/// Undo percent-encoding; `None` where a `%` is not followed by two hex digits.
fn pct_decode(s: &str) -> Option<Vec<u8>> {
    let b = s.as_bytes();
    let mut out = Vec::new();
    let mut i = 0;
    while i < b.len() {
        if b[i] == b'%' {
            let hex = std::str::from_utf8(b.get(i + 1..i + 3)?).ok()?;
            out.push(u8::from_str_radix(hex, 16).ok()?);
            i += 3;
        } else {
            out.push(b[i]);
            i += 1;
        }
    }
    Some(out)
}

#[test]
fn percent_decoding_gives_back_the_original_bytes() {
    for text in ["", "plain", "a b/c?d", "é ü ß", "%25 already", "&=#?/+ ~._-", "日本語\u{0}\u{7f}"] {
        let encoded = pct_encode(text);
        assert!(encoded.bytes().all(|c| c.is_ascii_alphanumeric() || b"-._~%".contains(&c)));
        assert_eq!(pct_decode(&encoded), Some(text.as_bytes().to_vec()));
    }
    assert_eq!(pct_encode("Az09-._~"), "Az09-._~");
}

/// Run the retry decisions over `outcomes` the way the transport's loop does,
/// and count the sends.
fn sends(max_retries: u32, outcomes: &[SendOutcome], replayable: bool, idempotent: bool) -> usize {
    let mut attempt: u32 = 1;
    loop {
        let outcome = &outcomes[(attempt - 1) as usize];
        match retry_step(attempt, max_retries, outcome, replayable, idempotent, 0) {
            RetryStep::Deliver => return attempt as usize,
            RetryStep::Retry(_) => attempt += 1,
        }
    }
}

#[test]
fn retries_stop_after_max_retries_plus_one_sends() {
    let busy = vec![response(503), response(503), response(503)];
    assert_eq!(sends(2, &busy, true, true), 3);
    assert_eq!(sends(0, &busy, true, true), 1);
    // A request that cannot be replayed is sent once.
    assert_eq!(sends(2, &busy, false, true), 1);
    // A 5xx on a non-idempotent request is delivered; a 429 is retried.
    assert_eq!(sends(2, &busy, true, false), 1);
    let limited = vec![response(429), response(429), response(200)];
    assert_eq!(sends(2, &limited, true, false), 3);
    // The first outcome that is not retried ends the loop.
    let mixed = vec![SendOutcome::Failure, response(404), response(503)];
    assert_eq!(sends(2, &mixed, true, true), 2);
}
