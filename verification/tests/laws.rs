use api2convert::json::{Json, JsonNumber};
use serde_json::Value;

/// A value of the library's JSON model from a decoded `serde_json` value.
fn to_json(v: &Value) -> Json {
    match v {
        Value::Null => Json::Null,
        Value::Bool(b) => Json::Bool(*b),
        Value::Number(n) => {
            if let Some(u) = n.as_u64() {
                Json::Number(JsonNumber::PosInt(u))
            } else if let Some(i) = n.as_i64() {
                Json::Number(JsonNumber::NegInt(i))
            } else {
                Json::Number(JsonNumber::Float(n.as_f64().unwrap().to_bits()))
            }
        }
        Value::String(s) => Json::Str(s.clone()),
        Value::Array(items) => Json::Array(items.iter().map(to_json).collect()),
        Value::Object(m) => Json::Object(m.iter().map(|(k, x)| (k.clone(), to_json(x))).collect()),
    }
}

/// The `serde_json` value of a library JSON value.
fn to_value(v: &Json) -> Value {
    match v {
        Json::Null => Value::Null,
        Json::Bool(b) => Value::Bool(*b),
        Json::Number(JsonNumber::PosInt(u)) => Value::from(*u),
        Json::Number(JsonNumber::NegInt(i)) => Value::from(*i),
        Json::Number(JsonNumber::Float(bits)) => Value::from(f64::from_bits(*bits)),
        Json::Str(s) => Value::String(s.clone()),
        Json::Array(items) => Value::Array(items.iter().map(to_value).collect()),
        Json::Object(entries) => {
            let mut m = serde_json::Map::new();
            for (k, x) in entries {
                m.insert(k.clone(), to_value(x));
            }
            Value::Object(m)
        }
    }
}

/// Parse JSON text into the library's model.
fn j(text: &str) -> Json {
    to_json(&serde_json::from_str::<Value>(text).expect("valid JSON in test"))
}

/// The entries of a JSON object written as text.
fn entries(text: &str) -> Vec<(String, Json)> {
    match j(text) {
        Json::Object(e) => e,
        _ => panic!("not an object"),
    }
}

/// The compact text of a value.
fn render(v: &Json) -> String {
    to_value(v).to_string()
}

/// A string value.
fn s(text: &str) -> Json {
    Json::Str(text.to_string())
}

use api2convert::errors::Api2ConvertError;
use api2convert::paths::safe_name;
use api2convert::rng::{draw_numerator, next_state, seed};
use api2convert::transport::encode::pct_encode;
use api2convert::transport::request::{retry_step, RetryDelay, RetryStep, SendOutcome};
use api2convert::upload::sanitize_filename;

#[test]
fn error_text_does_not_depend_on_request_id_or_body() {
    let a = Api2ConvertError::api(404, "gone".to_string(), Some("req-1".to_string()), j(r#"{"secret": 1}"#));
    let b = Api2ConvertError::api(404, "gone".to_string(), None, Json::Null);
    assert_eq!(a.message(), b.message());
    assert_eq!(a.message(), "not found (404): gone");
    let c = Api2ConvertError::api(599, "x".to_string(), None, Json::Null);
    assert!(matches!(c, Api2ConvertError::Server(_)));
    assert_eq!(Api2ConvertError::Config("bad".to_string()).message(), "configuration error: bad");
}

#[test]
fn safe_names_never_leave_the_directory() {
    for evil in ["../../etc/passwd", "..\\..\\win.ini", "/", "", ".", "..", "a/..", "\0", "x\\", "a/b/c/"] {
        let n = safe_name(evil);
        assert!(!n.is_empty());
        assert!(n != "." && n != "..");
        assert!(!n.contains('/') && !n.contains('\\'));
    }
}

#[test]
fn sanitized_names_are_header_safe() {
    for name in ["\"\r\n\0", "a\"b", "  ", "x\r\ny", ""] {
        let n = sanitize_filename(name);
        assert!(!n.is_empty());
        assert!(!n.contains(['\r', '\n', '"', '\0']));
    }
}

#[test]
fn percent_encoded_text_is_inert() {
    let e = pct_encode("a/b?c#d&e=f g%");
    assert!(!e.contains(['/', '?', '#', '&', '=', ' ']));
    assert!(e.chars().all(|c| c.is_ascii_alphanumeric() || "-._~%".contains(c)));
}

#[test]
fn retries_stop_when_the_budget_is_spent_or_the_body_cannot_be_replayed() {
    let busy = SendOutcome::Response { status: 503, retry_after: None };
    assert!(matches!(retry_step(3, 2, &busy, true, true, 0), RetryStep::Deliver));
    assert!(matches!(retry_step(1, 2, &busy, false, true, 0), RetryStep::Deliver));
    let limited = SendOutcome::Response { status: 429, retry_after: None };
    assert!(matches!(retry_step(1, 2, &limited, false, true, 0), RetryStep::Deliver));
    assert!(matches!(retry_step(1, 0, &limited, true, true, 0), RetryStep::Deliver));
    for attempt in 1..12 {
        match retry_step(attempt, 100, &busy, true, true, 0) {
            RetryStep::Retry(RetryDelay::BackoffMillis(ms)) => assert!((500..=8000).contains(&ms)),
            _ => panic!("an idempotent request is retried while the budget lasts"),
        }
    }
}

#[test]
fn the_jitter_source_never_sticks_at_zero() {
    assert_eq!(seed(Some(0)), 1);
    assert_eq!(seed(Some(6)), 7);
    assert_eq!(seed(None), 0x9E37_79B9_7F4A_7C15);
    let mut x = seed(Some(0));
    for _ in 0..1000 {
        x = next_state(x);
        assert_ne!(x, 0);
        assert!(draw_numerator(x) < (1u64 << 53));
    }
    let mut y: u64 = 1;
    y ^= y << 13;
    y ^= y >> 7;
    y ^= y << 17;
    assert_eq!(next_state(1), y);
}
