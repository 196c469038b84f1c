use api2convert::json::{Json, JsonNumber};
use serde_json::Value;

/// A value of the library's JSON model from a decoded `serde_json` value.
fn to_json(v: &Value) -> Json {
    match v {
        Value::Null => Json::Null,
        Value::Bool(b) => Json::Bool(*b),
        Value::Number(n) => {
            if let Some(u) = n.as_u64() {
                Json::Number(JsonNumber::PosInt(u))
            } else if let Some(i) = n.as_i64() {
                Json::Number(JsonNumber::NegInt(i))
            } else {
                Json::Number(JsonNumber::Float(n.as_f64().unwrap().to_bits()))
            }
        }
        Value::String(s) => Json::Str(s.clone()),
        Value::Array(items) => Json::Array(items.iter().map(to_json).collect()),
        Value::Object(m) => Json::Object(m.iter().map(|(k, x)| (k.clone(), to_json(x))).collect()),
    }
}

/// The `serde_json` value of a library JSON value.
fn to_value(v: &Json) -> Value {
    match v {
        Json::Null => Value::Null,
        Json::Bool(b) => Value::Bool(*b),
        Json::Number(JsonNumber::PosInt(u)) => Value::from(*u),
        Json::Number(JsonNumber::NegInt(i)) => Value::from(*i),
        Json::Number(JsonNumber::Float(bits)) => Value::from(f64::from_bits(*bits)),
        Json::Str(s) => Value::String(s.clone()),
        Json::Array(items) => Value::Array(items.iter().map(to_value).collect()),
        Json::Object(entries) => {
            let mut m = serde_json::Map::new();
            for (k, x) in entries {
                m.insert(k.clone(), to_value(x));
            }
            Value::Object(m)
        }
    }
}

/// Parse JSON text into the library's model.
fn j(text: &str) -> Json {
    to_json(&serde_json::from_str::<Value>(text).expect("valid JSON in test"))
}

/// The entries of a JSON object written as text.
fn entries(text: &str) -> Vec<(String, Json)> {
    match j(text) {
        Json::Object(e) => e,
        _ => panic!("not an object"),
    }
}

/// The compact text of a value.
fn render(v: &Json) -> String {
    to_value(v).to_string()
}

/// A string value.
fn s(text: &str) -> Json {
    Json::Str(text.to_string())
}

use api2convert::client::{conversion_payload, JobSource};
use api2convert::cloud::provider;
use api2convert::cloud::{CloudInput, OutputTarget};
use api2convert::errors::Api2ConvertError;
use api2convert::models::Job;
use api2convert::transport::http::Headers;
use api2convert::transport::request::error_from;

const SECRET: &str = "SUPERSECRET123";
const MARKER: &str = "[REDACTED]";

fn expected_input() -> Json {
    j(r#"{
        "type": "cloud",
        "source": "amazons3",
        "parameters": {"bucket": "my-bucket", "file": "in/photo.png"},
        "credentials": {"accesskeyid": "AKIA_TEST", "secretaccesskey": "SECRET_TEST"}
    }"#)
}

fn expected_output_target() -> Json {
    j(r#"{
        "type": "ftp",
        "parameters": {"host": "ftp.example.com", "file": "/out/photo.jpg"},
        "credentials": {"username": "u", "password": "p"}
    }"#)
}

fn ftp_target() -> OutputTarget {
    OutputTarget::of(provider::FTP)
        .parameter("host", s("ftp.example.com"))
        .parameter("file", s("/out/photo.jpg"))
        .credential("username", s("u"))
        .credential("password", s("p"))
}

#[test]
fn provider_vocabulary_in_order() {
    assert_eq!(
        provider::ALL,
        ["amazons3", "azure", "ftp", "gdrive", "googlecloud", "youtube"]
    );
}

#[test]
fn amazon_s3_descriptor_has_flat_lowercase_keys() {
    let v = CloudInput::amazon_s3("my-bucket", "in/photo.png", "AKIA_TEST", "SECRET_TEST").to_value();
    assert_eq!(v.get("type"), Some(&s("cloud")));
    assert_eq!(v.get("source"), Some(&s("amazons3")));
    assert_eq!(
        v.get("parameters"),
        Some(&j(r#"{"bucket": "my-bucket", "file": "in/photo.png"}"#))
    );
    assert_eq!(
        v.get("credentials"),
        Some(&j(r#"{"accesskeyid": "AKIA_TEST", "secretaccesskey": "SECRET_TEST"}"#))
    );
}

#[test]
fn per_provider_constructors_carry_keys_verbatim() {
    assert_eq!(
        CloudInput::azure("c", "f", "n", "k").to_value(),
        j(r#"{
            "type": "cloud", "source": "azure",
            "parameters": {"container": "c", "file": "f"},
            "credentials": {"accountname": "n", "accountkey": "k"}
        }"#)
    );
    assert_eq!(
        CloudInput::google_cloud("p", "b", "f", "kf").to_value(),
        j(r#"{
            "type": "cloud", "source": "googlecloud",
            "parameters": {"projectid": "p", "bucket": "b", "file": "f"},
            "credentials": {"keyfile": "kf"}
        }"#)
    );
}

#[test]
fn fluent_setters_carry_forward_compat_keys() {
    let v = CloudInput::amazon_s3("b", "f", "id", "sec")
        .parameter("region", s("eu"))
        .credential("sessiontoken", s("t"))
        .to_value();
    assert_eq!(
        v.get("parameters"),
        Some(&j(r#"{"bucket": "b", "file": "f", "region": "eu"}"#))
    );
    assert_eq!(
        v.get("credentials"),
        Some(&j(r#"{"accesskeyid": "id", "secretaccesskey": "sec", "sessiontoken": "t"}"#))
    );
}

#[test]
fn output_target_omits_status_on_serialize_but_hydrates_it_on_read() {
    let created = OutputTarget::of("ftp")
        .parameter("host", s("h"))
        .credential("username", s("u"));
    let v = created.to_value();
    assert!(v.get("status").is_none());
    assert_eq!(v.get("type"), Some(&s("ftp")));

    let read = OutputTarget::from_value(&j(
        r#"{"type": "ftp", "parameters": {"host": "h"}, "credentials": {"x": "y"}, "status": "completed"}"#,
    ));
    assert_eq!(read.kind, "ftp");
    assert_eq!(read.status.as_deref(), Some("completed"));
    assert!(read.credentials.is_empty());
}

#[test]
fn debug_masks_credentials_and_sensitive_parameters() {
    let input = CloudInput::amazon_s3("b", "f", "AKIA", SECRET);
    let shown = render(&input.masked());
    assert!(!shown.contains(SECRET));
    assert!(shown.contains(MARKER));

    let leaf = CloudInput::of("amazons3")
        .parameter("token", s("PARAMSECRET"))
        .parameter("bucket", s("b"));
    let shown = render(&leaf.masked());
    assert!(!shown.contains("PARAMSECRET"));
    assert!(shown.contains(MARKER));
    assert!(shown.contains("bucket"));
}

#[test]
fn fixture1_convert_serializes_cloud_input_and_output_target() {
    let input = CloudInput::amazon_s3("my-bucket", "in/photo.png", "AKIA_TEST", "SECRET_TEST");
    let targets = vec![ftp_target()];
    let body = conversion_payload(
        "jpg",
        &Vec::new(),
        None,
        false,
        None,
        None,
        &targets,
        &JobSource::Cloud(input),
    );
    assert_eq!(body.get("process"), Some(&Json::Bool(true)));
    assert_eq!(body.get("input"), Some(&Json::Array(vec![expected_input()])));
    let conversion = match body.get("conversion") {
        Some(Json::Array(items)) => &items[0],
        _ => panic!("conversion is an array"),
    };
    assert_eq!(
        conversion.get("output_target"),
        Some(&Json::Array(vec![expected_output_target()]))
    );
    match conversion.get("output_target") {
        Some(Json::Array(items)) => assert!(items[0].get("status").is_none()),
        _ => panic!("output_target is an array"),
    }
    assert!(conversion.get("options").is_none());
}

#[test]
fn fixture1_raw_create_path_produces_byte_identical_output_target() {
    let input = CloudInput::amazon_s3("my-bucket", "in/photo.png", "AKIA_TEST", "SECRET_TEST").to_value();
    let target = OutputTarget::new(
        provider::FTP,
        entries(r#"{"host": "ftp.example.com", "file": "/out/photo.jpg"}"#),
        entries(r#"{"username": "u", "password": "p"}"#),
    )
    .to_value();
    assert_eq!(input, expected_input());
    assert_eq!(target, expected_output_target());
    assert_eq!(target, ftp_target().to_value());
}

#[test]
fn add_input_accepts_cloud_input_builder() {
    let body = CloudInput::ftp("ftp.example.com", "in/a.png", "u", "p").to_value();
    assert_eq!(body.get("type"), Some(&s("cloud")));
    assert_eq!(body.get("source"), Some(&s("ftp")));
    assert_eq!(
        body.get("parameters"),
        Some(&j(r#"{"host": "ftp.example.com", "file": "in/a.png"}"#))
    );
    assert_eq!(
        body.get("credentials"),
        Some(&j(r#"{"username": "u", "password": "p"}"#))
    );
}

#[test]
fn fixture2_hydrates_cloud_input_and_output_target() {
    let job = Job::from_value(&j(r#"{
        "id": "job-1",
        "status": {"code": "completed"},
        "input": [{
            "id": "in-1",
            "type": "cloud",
            "source": "amazons3",
            "status": "ready",
            "parameters": {"bucket": "my-bucket", "file": "in/photo.png"},
            "credentials": {}
        }],
        "conversion": [{
            "id": "c-1",
            "target": "jpg",
            "output_target": [{
                "type": "ftp",
                "parameters": {"host": "ftp.example.com", "file": "/out/photo.jpg"},
                "credentials": {},
                "status": "uploading"
            }]
        }]
    }"#));
    let input = &job.input[0];
    assert_eq!(input.source.as_deref(), Some("amazons3"));
    assert_eq!(input.status.as_deref(), Some("ready"));
    assert_eq!(
        input.parameters,
        entries(r#"{"bucket": "my-bucket", "file": "in/photo.png"}"#)
    );
    let out = &job.conversion[0].output_target[0];
    assert_eq!(out.kind, "ftp");
    assert_eq!(out.status.as_deref(), Some("uploading"));
    assert_eq!(
        out.parameters,
        entries(r#"{"host": "ftp.example.com", "file": "/out/photo.jpg"}"#)
    );
    assert!(out.credentials.is_empty());
}

#[test]
fn fixture2_unknown_provider_round_trips_untyped() {
    let job = Job::from_value(&j(r#"{
        "id": "job-1",
        "status": {"code": "completed"},
        "input": [{"id": "in-1", "type": "cloud", "source": "r2", "status": "ready"}],
        "conversion": [{
            "target": "jpg",
            "output_target": [{"type": "r2", "status": "waiting"}]
        }]
    }"#));
    assert_eq!(job.input[0].source.as_deref(), Some("r2"));
    assert_eq!(job.conversion[0].output_target[0].kind, "r2");
    assert_eq!(job.conversion[0].output_target[0].status.as_deref(), Some("waiting"));
}

#[test]
fn fixture3a_cloud_input_debug_masks_credentials() {
    let rendered = render(&CloudInput::amazon_s3("b", "f", "AKIA", SECRET).masked());
    assert!(!rendered.contains(SECRET));
    assert!(rendered.contains(MARKER));
    assert!(rendered.contains("bucket"));
}

#[test]
fn fixture3a_output_target_debug_masks_credentials() {
    let rendered = render(
        &OutputTarget::of(provider::FTP)
            .parameter("host", s("ftp.example.com"))
            .credential("username", s("u"))
            .credential("password", s(SECRET))
            .masked(),
    );
    assert!(!rendered.contains(SECRET));
    assert!(rendered.contains(MARKER));
}

#[test]
fn fixture3bc_create_path_error_never_leaks_submitted_credential() {
    let mut headers = Headers::new();
    headers.insert("content-type", "application/json");
    let body = j(&format!(
        r#"{{"message": "Validation failed", "errors": {{"input.0.credentials.secretaccesskey": "{SECRET}"}}}}"#
    ));
    let err = error_from(422, &headers, Some(body), 0);
    assert!(matches!(err, Api2ConvertError::Validation(_)));
    assert!(!err.message().contains(SECRET));
    let body = render(err.body().expect("error carries a body"));
    assert!(!body.contains(SECRET));
    assert!(body.contains(MARKER));
}

#[test]
fn fixture3d_sensitive_parameters_leaf_is_masked_in_rendering() {
    let rendered = render(
        &CloudInput::of(provider::AMAZONS3)
            .parameter("token", s("PARAMSECRET"))
            .parameter("bucket", s("b"))
            .masked(),
    );
    assert!(!rendered.contains("PARAMSECRET"));
    assert!(rendered.contains(MARKER));
    assert!(rendered.contains("bucket"));
}

#[test]
fn provider_vocabulary() {
    assert_eq!(
        provider::ALL,
        ["amazons3", "azure", "ftp", "gdrive", "googlecloud", "youtube"]
    );
}
