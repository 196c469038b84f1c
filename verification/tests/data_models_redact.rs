use api2convert::json::{Json, JsonNumber};
use serde_json::Value;

/// A value of the library's JSON model from a decoded `serde_json` value.
fn to_json(v: &Value) -> Json {
    match v {
        Value::Null => Json::Null,
        Value::Bool(b) => Json::Bool(*b),
        Value::Number(n) => {
            if let Some(u) = n.as_u64() {
                Json::Number(JsonNumber::PosInt(u))
            } else if let Some(i) = n.as_i64() {
                Json::Number(JsonNumber::NegInt(i))
            } else {
                Json::Number(JsonNumber::Float(n.as_f64().unwrap().to_bits()))
            }
        }
        Value::String(s) => Json::Str(s.clone()),
        Value::Array(items) => Json::Array(items.iter().map(to_json).collect()),
        Value::Object(m) => Json::Object(m.iter().map(|(k, x)| (k.clone(), to_json(x))).collect()),
    }
}

/// The `serde_json` value of a library JSON value.
fn to_value(v: &Json) -> Value {
    match v {
        Json::Null => Value::Null,
        Json::Bool(b) => Value::Bool(*b),
        Json::Number(JsonNumber::PosInt(u)) => Value::from(*u),
        Json::Number(JsonNumber::NegInt(i)) => Value::from(*i),
        Json::Number(JsonNumber::Float(bits)) => Value::from(f64::from_bits(*bits)),
        Json::Str(s) => Value::String(s.clone()),
        Json::Array(items) => Value::Array(items.iter().map(to_value).collect()),
        Json::Object(entries) => {
            let mut m = serde_json::Map::new();
            for (k, x) in entries {
                m.insert(k.clone(), to_value(x));
            }
            Value::Object(m)
        }
    }
}

/// Parse JSON text into the library's model.
fn j(text: &str) -> Json {
    to_json(&serde_json::from_str::<Value>(text).expect("valid JSON in test"))
}

/// The entries of a JSON object written as text.
fn entries(text: &str) -> Vec<(String, Json)> {
    match j(text) {
        Json::Object(e) => e,
        _ => panic!("not an object"),
    }
}

/// The compact text of a value.
fn render(v: &Json) -> String {
    to_value(v).to_string()
}

/// A string value.
fn s(text: &str) -> Json {
    Json::Str(text.to_string())
}

use api2convert::data::{list, object, opt_i64, opt_string};
use api2convert::enums::job_status::{is_terminal, is_unsuccessful};
use api2convert::models::Job;
use api2convert::redact::{is_sensitive_key, parameters, redact_body, redact_value, MARKER};

#[test]
fn opt_i64_accepts_numbers_and_numeric_strings() {
    assert_eq!(opt_i64(Some(&j("42"))), Some(42));
    assert_eq!(opt_i64(Some(&j(r#""42""#))), Some(42));
    assert_eq!(opt_i64(Some(&j("3.9"))), Some(3));
    assert_eq!(opt_i64(Some(&j("9007199254740993"))), Some(9_007_199_254_740_993));
    assert_eq!(opt_i64(Some(&j("true"))), None);
    assert_eq!(opt_i64(Some(&j(r#""nope""#))), None);
    assert_eq!(opt_i64(None), None);
}

#[test]
fn opt_i64_edge_numbers() {
    assert_eq!(opt_i64(Some(&j("-3.9"))), Some(-3));
    assert_eq!(opt_i64(Some(&j("-42"))), Some(-42));
    assert_eq!(opt_i64(Some(&j(r#""-7""#))), Some(-7));
    assert_eq!(opt_i64(Some(&j(r#""4.5""#))), Some(4));
    assert_eq!(opt_i64(Some(&j(r#"" 12 ""#))), Some(12));
    assert_eq!(opt_i64(Some(&j("1e30"))), Some(i64::MAX));
    assert_eq!(opt_i64(Some(&j("-1e30"))), Some(i64::MIN));
    assert_eq!(opt_i64(Some(&j("18446744073709551615"))), Some(-1));
}

#[test]
fn opt_string_does_not_stringify_non_strings() {
    assert_eq!(opt_string(Some(&j(r#""hi""#))), Some("hi".to_string()));
    assert_eq!(opt_string(Some(&j("5"))), None);
    assert_eq!(opt_string(Some(&j("null"))), None);
    assert_eq!(opt_string(None), None);
}

#[test]
fn list_coerces_object_to_sorted_values() {
    let v = j(r#"{"b": 2, "a": 1}"#);
    assert_eq!(list(Some(&v)), vec![j("1"), j("2")]);
    assert_eq!(list(Some(&j("[3, 4]"))), vec![j("3"), j("4")]);
    assert!(list(Some(&j(r#""x""#))).is_empty());
}

#[test]
fn object_defaults_to_empty() {
    assert!(object(Some(&j(r#""nope""#))).is_empty());
    let o = object(Some(&j(r#"{"k": 1}"#)));
    assert_eq!(o, entries(r#"{"k": 1}"#));
}

#[test]
fn job_hydrates_and_reports_terminal() {
    let v = j(r#"{
        "id": "job1",
        "status": {"code": "completed"},
        "output": [{"uri": "https://cdn/f.png", "filename": "f.png", "size": 123}]
    }"#);
    let job = Job::from_value(&v);
    assert_eq!(job.id, "job1");
    assert!(job.is_completed());
    assert!(job.is_terminal());
    assert_eq!(job.output.len(), 1);
    assert_eq!(job.output[0].size, Some(123));
    assert!(job.token.is_none());
}

#[test]
fn unknown_status_is_not_terminal() {
    let job = Job::from_value(&j(r#"{"id": "j", "status": {"code": "some_new_state"}}"#));
    assert!(!job.is_terminal());
    assert!(!job.is_completed());
}

#[test]
fn missing_fields_do_not_panic() {
    let job = Job::from_value(&j("{}"));
    assert_eq!(job.id, "");
    assert_eq!(job.status.code, "");
    assert!(job.output.is_empty());
    assert!(!job.is_terminal());
}

#[test]
fn job_keeps_the_whole_response_and_its_messages() {
    let v = j(r#"{
        "id": "j", "status": {"code": "failed", "info": "why"},
        "token": "t", "server": "https://s",
        "errors": [{"code": "12", "message": "m", "source": "src"}],
        "warnings": [{"message": "w"}]
    }"#);
    let job = Job::from_value(&v);
    assert_eq!(job.raw, v);
    assert_eq!(job.status.info.as_deref(), Some("why"));
    assert_eq!(job.token.as_deref(), Some("t"));
    assert_eq!(job.server.as_deref(), Some("https://s"));
    assert_eq!(job.errors[0].code, Some(12));
    assert_eq!(job.errors[0].message, "m");
    assert_eq!(job.errors[0].source.as_deref(), Some("src"));
    assert_eq!(job.warnings[0].message, "w");
    assert!(job.is_failed());
    assert!(!job.is_canceled());
}

#[test]
fn terminal_codes() {
    for code in ["completed", "failed", "canceled"] {
        assert!(is_terminal(code));
    }
    for code in ["created", "incomplete", "downloading", "queued", "processing", "", "Completed"] {
        assert!(!is_terminal(code));
    }
    assert!(is_unsuccessful("failed"));
    assert!(is_unsuccessful("canceled"));
    assert!(!is_unsuccessful("completed"));
    assert!(!is_unsuccessful("processing"));
}

#[test]
fn sensitive_key_matches_substrings_case_insensitively() {
    assert!(is_sensitive_key("secretaccesskey"));
    assert!(is_sensitive_key("Password"));
    assert!(is_sensitive_key("accountKey"));
    assert!(is_sensitive_key("SAS"));
    assert!(is_sensitive_key("token"));
    assert!(!is_sensitive_key("bucket"));
    assert!(!is_sensitive_key("host"));
    assert!(!is_sensitive_key("projectid"));
}

#[test]
fn parameters_masks_only_sensitive_leaves() {
    let p = entries(r#"{"bucket": "b", "token": "PARAMSECRET"}"#);
    let red = Json::Object(parameters(&p));
    assert_eq!(red.get("bucket"), Some(&s("b")));
    assert_eq!(red.get("token"), Some(&s(MARKER)));
}

#[test]
fn redact_body_walks_nested_and_dotted_keys() {
    let body = j(r#"{
        "message": "Validation failed",
        "errors": {"input.0.credentials.secretaccesskey": "SUPERSECRET123"}
    }"#);
    let red = redact_body(&body);
    let text = render(&red);
    assert!(!text.contains("SUPERSECRET123"));
    assert!(text.contains(MARKER));
    assert_eq!(red.get("message"), Some(&s("Validation failed")));
}

#[test]
fn redaction_reaches_arrays_and_is_idempotent() {
    let body = j(r#"[{"a": {"password": {"deep": 1}}, "n": [1, {"sig": 2}]}, "plain"]"#);
    let once = redact_value(&body);
    assert_eq!(
        once,
        j(r#"[{"a": {"password": "[REDACTED]"}, "n": [1, {"sig": "[REDACTED]"}]}, "plain"]"#)
    );
    assert_eq!(redact_value(&once), once);
}

#[test]
fn numeric_strings_read_as_the_nearest_double() {
    let cases = [
        "0.99999999999999999",
        "0.9999999999999999",
        "0.99999999999999994449",
        "0.999999999999999944488848768742172978818416595458984375",
        "0.99999999999999994448884876874217297881841659545898437",
        "0.999999999999999944488848768742172978818416595458984376",
        "1.9999999999999999",
        "2.9999999999999998",
        "4503599627370495.5",
        "4503599627370496.5",
        "4503599627370497.5",
        "9007199254740992.5",
        "9007199254740993",
        "9007199254740993.0000001",
        "9007199254740995",
        "9223372036854775295",
        "9223372036854775296",
        "9223372036854775807.9",
        "-0.99999999999999999",
        "-9007199254740993.5",
        "123456789.987654321e3",
        "1e-400",
        "5e-324",
        "1.5e15",
        "7e18",
        "1e19",
        "3.9",
        "-3.9",
        "0.5",
        ".999999999999999999999",
        "12.",
        "+2.5e0",
    ];
    for text in cases {
        let json = Json::Str(text.to_string());
        let expected = text
            .parse::<i64>()
            .ok()
            .or_else(|| text.parse::<f64>().ok().map(|f| f.trunc() as i64));
        assert_eq!(opt_i64(Some(&json)), expected, "{text}");
    }
    assert_eq!(opt_i64(Some(&s("0.99999999999999999"))), Some(1));
    assert_eq!(opt_i64(Some(&s("9007199254740993.5"))), Some(9_007_199_254_740_994));
}
