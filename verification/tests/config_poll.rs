use api2convert::json::{Json, JsonNumber};
use serde_json::Value;

/// A value of the library's JSON model from a decoded `serde_json` value.
fn to_json(v: &Value) -> Json {
    match v {
        Value::Null => Json::Null,
        Value::Bool(b) => Json::Bool(*b),
        Value::Number(n) => {
            if let Some(u) = n.as_u64() {
                Json::Number(JsonNumber::PosInt(u))
            } else if let Some(i) = n.as_i64() {
                Json::Number(JsonNumber::NegInt(i))
            } else {
                Json::Number(JsonNumber::Float(n.as_f64().unwrap().to_bits()))
            }
        }
        Value::String(s) => Json::Str(s.clone()),
        Value::Array(items) => Json::Array(items.iter().map(to_json).collect()),
        Value::Object(m) => Json::Object(m.iter().map(|(k, x)| (k.clone(), to_json(x))).collect()),
    }
}

/// The `serde_json` value of a library JSON value.
fn to_value(v: &Json) -> Value {
    match v {
        Json::Null => Value::Null,
        Json::Bool(b) => Value::Bool(*b),
        Json::Number(JsonNumber::PosInt(u)) => Value::from(*u),
        Json::Number(JsonNumber::NegInt(i)) => Value::from(*i),
        Json::Number(JsonNumber::Float(bits)) => Value::from(f64::from_bits(*bits)),
        Json::Str(s) => Value::String(s.clone()),
        Json::Array(items) => Value::Array(items.iter().map(to_value).collect()),
        Json::Object(entries) => {
            let mut m = serde_json::Map::new();
            for (k, x) in entries {
                m.insert(k.clone(), to_value(x));
            }
            Value::Object(m)
        }
    }
}

/// Parse JSON text into the library's model.
fn j(text: &str) -> Json {
    to_json(&serde_json::from_str::<Value>(text).expect("valid JSON in test"))
}

/// The entries of a JSON object written as text.
fn entries(text: &str) -> Vec<(String, Json)> {
    match j(text) {
        Json::Object(e) => e,
        _ => panic!("not an object"),
    }
}

/// The compact text of a value.
fn render(v: &Json) -> String {
    to_value(v).to_string()
}

/// A string value.
fn s(text: &str) -> Json {
    Json::Str(text.to_string())
}

use api2convert::config::{
    clamp_poll_interval, clamp_poll_timeout, clamp_timeout, ClientBuilder, MAX_POLL_TIMEOUT_NS,
    MIN_POLL_INTERVAL_NS, MIN_TIMEOUT_NS,
};
use api2convert::errors::Api2ConvertError;
use api2convert::models::Job;
use api2convert::poll::{next_interval, poll_decide, poll_plan, PollStep};

#[test]
fn poll_interval_is_floored() {
    assert_eq!(clamp_poll_interval(1_000_000), MIN_POLL_INTERVAL_NS);
    assert_eq!(clamp_poll_interval(0), MIN_POLL_INTERVAL_NS);
    assert_eq!(clamp_poll_interval(3_000_000_000), 3_000_000_000);
}

#[test]
fn poll_timeout_is_capped() {
    assert_eq!(clamp_poll_timeout(100_000_000_000_000), MAX_POLL_TIMEOUT_NS);
    assert_eq!(clamp_poll_timeout(42_000_000_000), 42_000_000_000);
}

#[test]
fn timeout_has_a_floor() {
    assert_eq!(clamp_timeout(0), MIN_TIMEOUT_NS);
    assert_eq!(clamp_timeout(10_000_000_000), 10_000_000_000);
}

#[test]
fn missing_api_key_is_a_config_error() {
    let result = ClientBuilder::new().resolve(None);
    assert!(matches!(result, Err(Api2ConvertError::Config(_))));
}

#[test]
fn base_url_trailing_slash_is_trimmed() {
    let config = match ClientBuilder::new()
        .api_key("test-key")
        .base_url("https://example.test/v2/")
        .resolve(None)
    {
        Ok(c) => c,
        Err(_) => panic!("a key was given"),
    };
    assert_eq!(config.base_url, "https://example.test/v2");
}

#[test]
fn environment_key_is_used_when_the_builder_has_none() {
    let config = match ClientBuilder::new().resolve(Some("env-key".to_string())) {
        Ok(c) => c,
        Err(_) => panic!("the environment gives a key"),
    };
    assert_eq!(config.api_key, "env-key");
    let config = match ClientBuilder::new().api_key("own").resolve(Some("env-key".to_string())) {
        Ok(c) => c,
        Err(_) => panic!("a key was given"),
    };
    assert_eq!(config.api_key, "own");
    assert!(matches!(
        ClientBuilder::new().api_key("").resolve(Some(String::new())),
        Err(Api2ConvertError::Config(_))
    ));
}

#[test]
fn resolved_knobs_are_clamped() {
    let config = match ClientBuilder::new()
        .api_key("k")
        .timeout(0)
        .poll_interval(1)
        .poll_max_interval(2)
        .poll_timeout(u64::MAX)
        .resolve(None)
    {
        Ok(c) => c,
        Err(_) => panic!("a key was given"),
    };
    assert_eq!(config.timeout_ns, MIN_TIMEOUT_NS);
    assert_eq!(config.poll_interval_ns, MIN_POLL_INTERVAL_NS);
    assert!(config.poll_max_interval_ns >= config.poll_interval_ns);
    assert_eq!(config.poll_timeout_ns, MAX_POLL_TIMEOUT_NS);
}

fn job(text: &str) -> Job {
    Job::from_value(&j(text))
}

#[test]
fn polls_until_completed() {
    let plan = poll_plan(1_000_000_000, 5_000_000_000, 300_000_000_000, Some(60_000_000_000));
    assert!(matches!(
        poll_decide(job(r#"{"id": "j", "status": {"code": "processing"}}"#), true, 0, plan.timeout_ns),
        PollStep::Continue
    ));
    assert!(matches!(
        poll_decide(job(r#"{"id": "j", "status": {"code": "queued"}}"#), true, 1_000_000_000, plan.timeout_ns),
        PollStep::Continue
    ));
    match poll_decide(job(r#"{"id": "j", "status": {"code": "completed"}}"#), true, 2_500_000_000, plan.timeout_ns) {
        PollStep::Done(j) => assert!(j.is_completed()),
        _ => panic!("a completed job ends the wait"),
    }
}

#[test]
fn failed_job_raises_conversion_failed() {
    let failed = job(r#"{"id": "j", "status": {"code": "failed"}, "errors": [{"message": "bad input", "code": 4001}]}"#);
    match poll_decide(failed, true, 0, 60_000_000_000) {
        PollStep::Fail(Api2ConvertError::ConversionFailed { job, errors }) => {
            assert!(job.is_failed());
            assert_eq!(errors.first().unwrap().message, "bad input");
            assert_eq!(errors.first().unwrap().code, Some(4001));
        }
        _ => panic!("a failed job is an error"),
    }
}

#[test]
fn throw_on_failure_false_returns_the_failed_job() {
    match poll_decide(job(r#"{"id": "j", "status": {"code": "failed"}}"#), false, 0, 60_000_000_000) {
        PollStep::Done(j) => assert!(j.is_failed()),
        _ => panic!("the failed job is returned"),
    }
}

#[test]
fn times_out_past_deadline() {
    let plan = poll_plan(1_000_000_000, 5_000_000_000, 300_000_000_000, Some(0));
    assert!(matches!(
        poll_decide(job(r#"{"id": "j", "status": {"code": "processing"}}"#), true, 0, plan.timeout_ns),
        PollStep::Fail(Api2ConvertError::ConversionTimeout { .. })
    ));
}

#[test]
fn poll_interval_backs_off_by_1_5x_up_to_the_max() {
    let plan = poll_plan(1_000_000_000, 5_000_000_000, 300_000_000_000, Some(600_000_000_000));
    let first = plan.interval_ns;
    let second = next_interval(first, plan.max_interval_ns);
    let third = next_interval(second, plan.max_interval_ns);
    assert_eq!(vec![first, second, third], vec![1_000_000_000, 1_500_000_000, 2_250_000_000]);
    let mut i = third;
    for _ in 0..10 {
        i = next_interval(i, plan.max_interval_ns);
    }
    assert_eq!(i, 5_000_000_000);
}

#[test]
fn poll_plan_floors_and_caps() {
    let plan = poll_plan(1_000_000, 2_000_000, 100_000_000_000_000, None);
    assert_eq!(plan.interval_ns, 500_000_000);
    assert_eq!(plan.max_interval_ns, 500_000_000);
    assert_eq!(plan.timeout_ns, 14_400_000_000_000);
}

#[test]
fn defaults_match_the_documented_configuration() {
    let b = ClientBuilder::default();
    assert!(b.api_key.is_none());
    assert_eq!(b.base_url, "https://api.api2convert.com/v2");
    assert_eq!(b.timeout_ns, 30_000_000_000);
    assert_eq!(b.max_retries, 2);
    assert_eq!(b.poll_interval_ns, 1_000_000_000);
    assert_eq!(b.poll_max_interval_ns, 5_000_000_000);
    assert_eq!(b.poll_timeout_ns, 300_000_000_000);
    assert_eq!(b.max_download_bytes, 0);
    let o = api2convert::convert_options::ConvertOptions::default();
    assert_eq!(o.output_index, 0);
    assert!(o.conversion_options.is_empty() && o.output_targets.is_empty());
    let a = api2convert::convert_options::AsyncOptions::default();
    assert!(a.callback.is_none());
}

#[test]
fn poll_interval_grows_by_exactly_half_in_nanoseconds() {
    // 1001 ms grows to 1501.5 ms, not to a whole millisecond.
    assert_eq!(next_interval(1_001_000_000, 5_000_000_000), 1_501_500_000);
    // An odd count of nanoseconds drops only the half nanosecond.
    assert_eq!(next_interval(1_000_000_001, 5_000_000_000), 1_500_000_001);
    // The ceiling holds exactly.
    assert_eq!(next_interval(4_000_000_000, 5_000_000_000), 5_000_000_000);
    assert_eq!(next_interval(5_000_000_000, 5_000_000_000), 5_000_000_000);
}

/// Run the wait's decisions over fetches that all see `code`, each coming
/// exactly the scheduled pause after the one before; the pauses and the
/// number of fetches come back.
fn run_wait(plan_timeout_ns: u64, code: &str) -> (Vec<u64>, usize) {
    let plan = poll_plan(1_000_000_000, 5_000_000_000, 300_000_000_000, Some(plan_timeout_ns));
    let text = format!(r#"{{"id": "j", "status": {{"code": "{code}"}}}}"#);
    let mut pauses = Vec::new();
    let mut elapsed: u64 = 0;
    let mut interval = plan.interval_ns;
    let mut fetches = 0;
    loop {
        fetches += 1;
        match poll_decide(job(&text), true, elapsed, plan.timeout_ns) {
            PollStep::Continue => {
                pauses.push(interval);
                elapsed += interval;
                interval = next_interval(interval, plan.max_interval_ns);
            }
            _ => return (pauses, fetches),
        }
    }
}

#[test]
fn a_wait_stops_at_the_deadline_after_bounded_fetches() {
    let (pauses, fetches) = run_wait(10_000_000_000, "processing");
    assert_eq!(pauses, vec![1_000_000_000, 1_500_000_000, 2_250_000_000, 3_375_000_000, 5_000_000_000]);
    assert_eq!(fetches, 6);
    assert!((fetches as u64 - 1) * 500_000_000 < 10_000_000_000 + 500_000_000);
    let (pauses, fetches) = run_wait(0, "processing");
    assert!(pauses.is_empty());
    assert_eq!(fetches, 1);
    let (pauses, fetches) = run_wait(10_000_000_000, "completed");
    assert!(pauses.is_empty());
    assert_eq!(fetches, 1);
}
