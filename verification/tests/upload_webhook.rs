use api2convert::json::{Json, JsonNumber};
use serde_json::Value;

/// A value of the library's JSON model from a decoded `serde_json` value.
fn to_json(v: &Value) -> Json {
    match v {
        Value::Null => Json::Null,
        Value::Bool(b) => Json::Bool(*b),
        Value::Number(n) => {
            if let Some(u) = n.as_u64() {
                Json::Number(JsonNumber::PosInt(u))
            } else if let Some(i) = n.as_i64() {
                Json::Number(JsonNumber::NegInt(i))
            } else {
                Json::Number(JsonNumber::Float(n.as_f64().unwrap().to_bits()))
            }
        }
        Value::String(s) => Json::Str(s.clone()),
        Value::Array(items) => Json::Array(items.iter().map(to_json).collect()),
        Value::Object(m) => Json::Object(m.iter().map(|(k, x)| (k.clone(), to_json(x))).collect()),
    }
}

/// The `serde_json` value of a library JSON value.
fn to_value(v: &Json) -> Value {
    match v {
        Json::Null => Value::Null,
        Json::Bool(b) => Value::Bool(*b),
        Json::Number(JsonNumber::PosInt(u)) => Value::from(*u),
        Json::Number(JsonNumber::NegInt(i)) => Value::from(*i),
        Json::Number(JsonNumber::Float(bits)) => Value::from(f64::from_bits(*bits)),
        Json::Str(s) => Value::String(s.clone()),
        Json::Array(items) => Value::Array(items.iter().map(to_value).collect()),
        Json::Object(entries) => {
            let mut m = serde_json::Map::new();
            for (k, x) in entries {
                m.insert(k.clone(), to_value(x));
            }
            Value::Object(m)
        }
    }
}

/// Parse JSON text into the library's model.
fn j(text: &str) -> Json {
    to_json(&serde_json::from_str::<Value>(text).expect("valid JSON in test"))
}

/// The entries of a JSON object written as text.
fn entries(text: &str) -> Vec<(String, Json)> {
    match j(text) {
        Json::Object(e) => e,
        _ => panic!("not an object"),
    }
}

/// The compact text of a value.
fn render(v: &Json) -> String {
    to_value(v).to_string()
}

/// A string value.
fn s(text: &str) -> Json {
    Json::Str(text.to_string())
}

use api2convert::errors::Api2ConvertError;
use api2convert::models::{InputFile, Job, Status};
use api2convert::transport::request::{is_idempotent, retry_step, RetryStep, SendOutcome};
use api2convert::upload::{boundary, plan_upload, sanitize_filename, UploadPlan, UploadSource};
use api2convert::webhook::{decode_hex, verify_signature, WebhookVerifier};
use hmac::{Hmac, Mac};
use sha2::Sha256;

fn staged_job(server: Option<&str>, token: Option<&str>) -> Job {
    Job {
        id: "job1".to_string(),
        status: Status { code: "created".to_string(), info: None },
        token: token.map(str::to_string),
        server: server.map(str::to_string),
        callback: None,
        conversion: vec![],
        input: vec![],
        output: vec![],
        errors: vec![],
        warnings: vec![],
        raw: Json::Null,
    }
}

fn ready_job() -> Job {
    staged_job(Some("https://upload.example"), Some("job-token"))
}

const BOUNDARY: &str = "----api2convert00000000000000010000000000000002";

fn plan(job: &Job, source: UploadSource, filename: Option<&str>) -> UploadPlan {
    match plan_upload(job, &source, filename, BOUNDARY, "linux", '/') {
        Ok(p) => p,
        Err(_) => panic!("the upload can be prepared"),
    }
}

fn header<'a>(p: &'a UploadPlan, name: &str) -> Option<&'a str> {
    p.request
        .headers
        .iter()
        .find(|(k, _)| k.eq_ignore_ascii_case(name))
        .map(|(_, v)| v.as_str())
}

/// The bytes the request streams: preamble, file, epilogue.
fn body(p: &UploadPlan, file: &[u8]) -> String {
    let mut b = p.preamble.clone().into_bytes();
    b.extend_from_slice(file);
    b.extend_from_slice(p.epilogue.as_bytes());
    String::from_utf8_lossy(&b).to_string()
}

fn path_of(url: &str) -> String {
    let rest = &url[url.find("://").unwrap() + 3..];
    rest[rest.find('/').unwrap()..].to_string()
}

#[test]
fn uploads_with_the_job_token_and_never_the_account_key() {
    let p = plan(&ready_job(), UploadSource::Bytes, Some("doc.pdf"));
    assert_eq!(p.request.method, "POST");
    assert_eq!(path_of(&p.request.url), "/upload-file/job1");
    assert!(p.request.url.starts_with("https://upload.example"));
    assert_eq!(header(&p, "x-oc-token"), Some("job-token"));
    assert!(header(&p, "x-api2convert-api-key").is_none());
    assert!(header(&p, "x-oc-api-key").is_none());
    assert!(header(&p, "content-type").unwrap().starts_with("multipart/form-data; boundary="));
    let b = body(&p, b"file-bytes-here");
    assert!(b.contains("name=\"file\""));
    assert!(b.contains("filename=\"doc.pdf\""));
    assert!(b.contains("file-bytes-here"));
    let input = InputFile::from_value(&j(r#"{"id": "input1", "type": "upload"}"#));
    assert_eq!(input.kind, "upload");
}

#[test]
fn missing_server_is_a_config_error() {
    let r = plan_upload(&staged_job(None, Some("job-token")), &UploadSource::Bytes, None, BOUNDARY, "linux", '/');
    assert!(matches!(r, Err(Api2ConvertError::Config(_))));
    let r = plan_upload(&staged_job(Some(""), Some("job-token")), &UploadSource::Bytes, None, BOUNDARY, "linux", '/');
    assert!(matches!(r, Err(Api2ConvertError::Config(_))));
}

#[test]
fn missing_token_is_a_config_error() {
    let r = plan_upload(&staged_job(Some("https://upload.example"), None), &UploadSource::Bytes, None, BOUNDARY, "linux", '/');
    assert!(matches!(r, Err(Api2ConvertError::Config(_))));
}

#[test]
fn url_and_missing_path_are_config_errors() {
    let r = plan_upload(&ready_job(), &UploadSource::Url("https://x".to_string()), None, BOUNDARY, "linux", '/');
    match r {
        Err(Api2ConvertError::Config(m)) => assert_eq!(m, "cannot upload a URL; add it as a remote input instead"),
        _ => panic!("a URL cannot be uploaded"),
    }
    let r = plan_upload(
        &ready_job(),
        &UploadSource::Path { path: "/no/such/file.png".to_string(), exists: false },
        None,
        BOUNDARY,
        "linux",
        '/',
    );
    match r {
        Err(Api2ConvertError::Config(m)) => assert_eq!(m, "file not found: /no/such/file.png"),
        _ => panic!("a missing file cannot be uploaded"),
    }
}

#[test]
fn multipart_body_is_correctly_framed() {
    let p = plan(&ready_job(), UploadSource::Bytes, Some("report.pdf"));
    let ct = header(&p, "content-type").unwrap();
    let b = ct[ct.find("boundary=").unwrap() + "boundary=".len()..].to_string();
    assert_eq!(b, BOUNDARY);
    let text = body(&p, b"PAYLOAD-BYTES");
    assert!(text.starts_with(&format!("--{b}\r\n")));
    assert!(text.contains("Content-Disposition: form-data; name=\"file\"; filename=\"report.pdf\""));
    assert!(text.contains("Content-Type: application/octet-stream\r\n\r\n"));
    assert!(text.contains("PAYLOAD-BYTES"));
    assert!(text.ends_with(&format!("\r\n--{b}--\r\n")));
}

#[test]
fn multipart_from_path_uses_the_basename() {
    let p = plan(
        &ready_job(),
        UploadSource::Path { path: "/tmp/dir/my document.png".to_string(), exists: true },
        None,
    );
    assert!(body(&p, b"PNGDATA").contains("filename=\"my document.png\""));
    assert!(p.request.replayable);
}

#[test]
fn path_basename_follows_the_platform_separator() {
    let source = UploadSource::Path { path: "C:\\dir\\my doc.png".to_string(), exists: true };
    let p = match plan_upload(&ready_job(), &source, None, BOUNDARY, "windows", '\\') {
        Ok(p) => p,
        Err(_) => panic!("the upload can be prepared"),
    };
    assert!(body(&p, b"X").contains("filename=\"my doc.png\""));
    // A forward slash separates on every platform.
    let source = UploadSource::Path { path: "C:\\dir/sub\\a.txt".to_string(), exists: true };
    let p = match plan_upload(&ready_job(), &source, None, BOUNDARY, "windows", '\\') {
        Ok(p) => p,
        Err(_) => panic!("the upload can be prepared"),
    };
    assert!(body(&p, b"X").contains("filename=\"a.txt\""));
    // Where the separator is '/', a backslash is part of the name.
    let source = UploadSource::Path { path: "/tmp/a\\b.txt".to_string(), exists: true };
    let p = plan(&ready_job(), source, None);
    assert!(body(&p, b"X").contains("filename=\"a\\b.txt\""));
}

#[test]
fn multipart_from_reader_streams_with_default_filename() {
    let p = plan(&ready_job(), UploadSource::Reader, None);
    let text = body(&p, b"STREAMED");
    assert!(text.contains("filename=\"file\""));
    assert!(text.contains("STREAMED"));
    assert!(!p.request.replayable);
}

#[test]
fn explicit_filename_overrides_and_injection_is_sanitized() {
    let evil = "evil\"\r\nX-Injected: 1\r\n\r\nnope.png";
    let p = plan(&ready_job(), UploadSource::Bytes, Some(evil));
    let text = body(&p, b"X");
    assert!(!text.lines().any(|l| l.trim() == "X-Injected: 1"));
    let line = text.lines().find(|l| l.starts_with("Content-Disposition:")).unwrap();
    assert_eq!(line.matches('"').count(), 4);
    assert!(!line.contains('\r'));
    assert_eq!(sanitize_filename(evil), "evilX-Injected: 1nope.png");
    assert_eq!(sanitize_filename("  \r\n\"  "), "file");
    assert_eq!(sanitize_filename(" a\0b "), "ab");
}

#[test]
fn boundary_is_reused_across_a_retry() {
    let p = plan(&ready_job(), UploadSource::Bytes, Some("f.bin"));
    let outcome = SendOutcome::Response { status: 429, retry_after: None };
    assert!(matches!(
        retry_step(1, 2, &outcome, p.request.replayable, is_idempotent(&p.request), 0),
        RetryStep::Retry(_)
    ));
    // The retried request is the same plan: its Content-Type names the
    // boundary that frames the body, and preparing the same upload again
    // with that boundary gives the very same request and framing.
    let ct = header(&p, "content-type").unwrap().to_string();
    let named = &ct[ct.find("boundary=").unwrap() + "boundary=".len()..];
    assert!(p.preamble.starts_with(&format!("--{named}\r\n")));
    assert!(p.epilogue.ends_with(&format!("\r\n--{named}--\r\n")));
    let again = plan(&ready_job(), UploadSource::Bytes, Some("f.bin"));
    assert_eq!(again.request.url, p.request.url);
    assert_eq!(again.request.headers, p.request.headers);
    assert_eq!(again.preamble, p.preamble);
    assert_eq!(again.epilogue, p.epilogue);
    assert_eq!(body(&again, b"AGAIN").into_bytes(), body(&p, b"AGAIN").into_bytes());
    assert_eq!(boundary(1, 2), BOUNDARY);
    assert_eq!(boundary(0xdead_beef, u64::MAX), "----api2convert00000000deadbeefffffffffffffffff");
}

#[test]
fn one_shot_reader_is_not_retried() {
    let p = plan(&ready_job(), UploadSource::Reader, None);
    let outcome = SendOutcome::Response { status: 429, retry_after: None };
    assert!(matches!(
        retry_step(1, 2, &outcome, p.request.replayable, is_idempotent(&p.request), 0),
        RetryStep::Deliver
    ));
}

#[test]
fn upload_url_encodes_the_job_id() {
    let mut job = ready_job();
    job.id = "weird/id".to_string();
    job.server = Some("https://upload.example//".to_string());
    let p = plan(&job, UploadSource::Bytes, None);
    assert_eq!(p.request.url, "https://upload.example/upload-file/weird%2Fid");
    assert!(!p.request.follow_redirects);
    assert!(p.request.timeout_ns.is_none());
    assert!(p.request.body.is_none());
}

fn sign(secret: &str, payload: &[u8]) -> String {
    let mut mac = Hmac::<Sha256>::new_from_slice(secret.as_bytes()).unwrap();
    mac.update(payload);
    mac.finalize().into_bytes().iter().map(|b| format!("{b:02x}")).collect()
}

fn parsed(payload: &[u8]) -> Option<Json> {
    serde_json::from_slice::<Value>(payload).ok().map(|v| to_json(&v))
}

#[test]
fn decode_hex_handles_valid_and_invalid() {
    assert_eq!(decode_hex("00ff10"), Some(vec![0x00, 0xff, 0x10]));
    assert_eq!(decode_hex(""), Some(vec![]));
    assert_eq!(decode_hex("abc"), None);
    assert_eq!(decode_hex("zz"), None);
}

#[test]
fn decode_hex_accepts_upper_case_and_a_plus_sign() {
    assert_eq!(decode_hex("ABcd"), Some(vec![0xab, 0xcd]));
    assert_eq!(decode_hex("+f0a"), Some(vec![0x0f, 0x0a]));
    assert_eq!(decode_hex("-1"), None);
    assert_eq!(decode_hex("é"), None);
}

#[test]
fn verifies_a_valid_signature() {
    let payload = br#"{"id":"job1","status":{"code":"completed"}}"#;
    let secret = "whsec_test";
    let sig = sign(secret, payload);
    match WebhookVerifier.construct_event(payload, Some(&sig), secret, parsed(payload)) {
        Ok(event) => {
            assert_eq!(event.job.id, "job1");
            assert!(event.job.is_completed());
            assert_eq!(event.payload, j(r#"{"id":"job1","status":{"code":"completed"}}"#));
        }
        Err(_) => panic!("valid signature should verify"),
    }
    let padded = format!("  {}\t", sig.to_uppercase());
    assert!(verify_signature(payload, Some(&padded), secret).is_ok());
}

#[test]
fn rejects_a_wrong_signature() {
    let payload = br#"{"id":"job1"}"#;
    match WebhookVerifier.construct_event(payload, Some("00deadbeef"), "whsec_test", parsed(payload)) {
        Err(Api2ConvertError::SignatureVerification(m)) => assert_eq!(m, "signature mismatch"),
        _ => panic!("wrong signature"),
    }
    match verify_signature(payload, Some("xyz1"), "whsec_test") {
        Err(Api2ConvertError::SignatureVerification(m)) => assert_eq!(m, "signature is not valid hex"),
        _ => panic!("not hex"),
    }
}

#[test]
fn missing_signature_with_a_secret_is_rejected() {
    let payload = br#"{"id":"j"}"#;
    match WebhookVerifier.construct_event(payload, None, "whsec_test", parsed(payload)) {
        Err(Api2ConvertError::SignatureVerification(m)) => assert_eq!(m, "missing signature"),
        _ => panic!("missing signature"),
    }
    match verify_signature(payload, Some("   "), "whsec_test") {
        Err(Api2ConvertError::SignatureVerification(m)) => assert_eq!(m, "missing signature"),
        _ => panic!("blank signature"),
    }
}

#[test]
fn empty_secret_skips_verification() {
    let payload = br#"{"id":"job7","status":{"code":"processing"}}"#;
    match WebhookVerifier.construct_event(payload, None, "", parsed(payload)) {
        Ok(event) => assert_eq!(event.job.id, "job7"),
        Err(_) => panic!("empty secret should skip verification"),
    }
}

#[test]
fn parse_requires_a_json_object() {
    let hooks = WebhookVerifier;
    assert!(hooks.parse(parsed(br#"{"id":"j"}"#)).is_ok());
    match hooks.parse(parsed(b"[]")) {
        Err(Api2ConvertError::SignatureVerification(m)) => assert_eq!(m, "webhook payload is not a JSON object"),
        _ => panic!("an array is not an event"),
    }
    match hooks.parse(parsed(b"not json")) {
        Err(Api2ConvertError::SignatureVerification(m)) => assert_eq!(m, "webhook payload is not valid JSON"),
        _ => panic!("text is not an event"),
    }
}

#[test]
fn upload_uses_the_token_and_does_not_follow_redirects() {
    let p = plan(&ready_job(), UploadSource::Bytes, Some("f.bin"));
    assert!(!p.request.follow_redirects);
    assert_eq!(header(&p, "x-oc-token"), Some("job-token"));
    assert!(header(&p, "x-api2convert-api-key").is_none());
    assert!(header(&p, "x-oc-api-key").is_none());
}
