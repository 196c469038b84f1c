use api2convert::json::{Json, JsonNumber};
use serde_json::Value;

/// A value of the library's JSON model from a decoded `serde_json` value.
fn to_json(v: &Value) -> Json {
    match v {
        Value::Null => Json::Null,
        Value::Bool(b) => Json::Bool(*b),
        Value::Number(n) => {
            if let Some(u) = n.as_u64() {
                Json::Number(JsonNumber::PosInt(u))
            } else if let Some(i) = n.as_i64() {
                Json::Number(JsonNumber::NegInt(i))
            } else {
                Json::Number(JsonNumber::Float(n.as_f64().unwrap().to_bits()))
            }
        }
        Value::String(s) => Json::Str(s.clone()),
        Value::Array(items) => Json::Array(items.iter().map(to_json).collect()),
        Value::Object(m) => Json::Object(m.iter().map(|(k, x)| (k.clone(), to_json(x))).collect()),
    }
}

/// The `serde_json` value of a library JSON value.
fn to_value(v: &Json) -> Value {
    match v {
        Json::Null => Value::Null,
        Json::Bool(b) => Value::Bool(*b),
        Json::Number(JsonNumber::PosInt(u)) => Value::from(*u),
        Json::Number(JsonNumber::NegInt(i)) => Value::from(*i),
        Json::Number(JsonNumber::Float(bits)) => Value::from(f64::from_bits(*bits)),
        Json::Str(s) => Value::String(s.clone()),
        Json::Array(items) => Value::Array(items.iter().map(to_value).collect()),
        Json::Object(entries) => {
            let mut m = serde_json::Map::new();
            for (k, x) in entries {
                m.insert(k.clone(), to_value(x));
            }
            Value::Object(m)
        }
    }
}

/// Parse JSON text into the library's model.
fn j(text: &str) -> Json {
    to_json(&serde_json::from_str::<Value>(text).expect("valid JSON in test"))
}

/// The entries of a JSON object written as text.
fn entries(text: &str) -> Vec<(String, Json)> {
    match j(text) {
        Json::Object(e) => e,
        _ => panic!("not an object"),
    }
}

/// The compact text of a value.
fn render(v: &Json) -> String {
    to_value(v).to_string()
}

/// A string value.
fn s(text: &str) -> Json {
    Json::Str(text.to_string())
}

use api2convert::client::{conversion_payload, is_url, remote_input, start_payload, JobSource};
use api2convert::convert_options::{AsyncOptions, ConvertOptions};
use api2convert::download::{add_chunk, pick_password, select_output};
use api2convert::errors::Api2ConvertError;
use api2convert::models::{Job, OutputFile};
use api2convert::paths::{file_name, resolve_target, safe_name};
use api2convert::resources::{
    conversions_query, job_input_path, job_output_path, job_path, options_from_rows, preset_path,
    presets_query, stats_path,
};
use api2convert::transport::encode::build_url;
use api2convert::transport::request::download_request;

fn payload_for(source: JobSource, opts: &ConvertOptions) -> Json {
    conversion_payload(
        "png",
        &opts.conversion_options,
        opts.category.as_deref(),
        false,
        None,
        opts.download_password.as_deref(),
        &opts.output_targets,
        &source,
    )
}

fn first_item(v: Option<&Json>) -> &Json {
    match v {
        Some(Json::Array(items)) => &items[0],
        _ => panic!("expected an array"),
    }
}

fn output(uri: &str, filename: Option<&str>) -> OutputFile {
    let mut o = OutputFile::with_uri(uri);
    o.filename = filename.map(str::to_string);
    o
}

#[test]
fn strings_starting_with_http_are_urls() {
    assert!(is_url("https://example.com/in.jpg"));
    assert!(is_url("http://x"));
    assert!(is_url("https://x"));
    assert!(!is_url("  HTTP://example.com"));
    assert!(!is_url(" https://x"));
    assert!(!is_url("HTTPS://x"));
    assert!(!is_url("in.png"));
    assert!(!is_url("ftp://example.com"));
    assert!(!is_url("/tmp/http://x"));
    assert!(!is_url("https:/x"));
}

#[test]
fn remote_url_creates_a_single_started_job_then_polls() {
    let body = payload_for(JobSource::Url("https://example.com/in.jpg".to_string()), &ConvertOptions::new());
    assert_eq!(first_item(body.get("conversion")).get("target"), Some(&s("png")));
    let input = first_item(body.get("input"));
    assert_eq!(input.get("type"), Some(&s("remote")));
    assert_eq!(input.get("source"), Some(&s("https://example.com/in.jpg")));
    assert_eq!(input, &remote_input("https://example.com/in.jpg"));
    assert_eq!(body.get("process"), Some(&Json::Bool(true)));
    assert_eq!(job_path("job1"), "jobs/job1");
    let job = Job::from_value(&j(r#"{
        "id": "job1", "status": {"code": "completed"},
        "output": [{"uri": "https://cdn.example/out.png", "filename": "out.png"}]
    }"#));
    match select_output(&job.output, 0) {
        Ok(o) => assert_eq!(o.uri, "https://cdn.example/out.png"),
        Err(_) => panic!("the first output exists"),
    }
}

#[test]
fn local_file_stages_uploads_starts_then_polls() {
    let body = payload_for(JobSource::Upload, &ConvertOptions::new());
    assert_eq!(body.get("process"), Some(&Json::Bool(false)));
    assert!(body.get("input").is_none());
    assert_eq!(start_payload(), j(r#"{"process": true}"#));
    assert_eq!(job_path("job1"), "jobs/job1");
}

#[test]
fn download_password_is_sent_on_create_and_remembered_for_download() {
    let opts = ConvertOptions::new().download_password("s3cr3t");
    let body = payload_for(JobSource::Url("https://example.com/in.jpg".to_string()), &opts);
    assert_eq!(body.get("download_passwords"), Some(&j(r#"["s3cr3t"]"#)));
    let remembered = opts.download_password.clone();
    let pw = pick_password(None, &remembered);
    assert_eq!(pw, Some("s3cr3t"));
    let dl = download_request("https://cdn.example/out.png", pw, "linux");
    assert!(dl
        .headers
        .iter()
        .any(|(k, v)| k.eq_ignore_ascii_case("x-oc-download-password") && v == "s3cr3t"));
    assert!(!dl.follow_redirects);
}

#[test]
fn convert_async_with_callback_sets_notify_status() {
    let opts = AsyncOptions::new().callback("https://your.app/hook");
    let body = conversion_payload(
        "png",
        &opts.conversion_options,
        None,
        true,
        opts.callback.as_deref(),
        None,
        &opts.output_targets,
        &JobSource::Url("https://example.com/in.jpg".to_string()),
    );
    assert_eq!(body.get("callback"), Some(&s("https://your.app/hook")));
    assert_eq!(body.get("notify_status"), Some(&Json::Bool(true)));
    let sync = conversion_payload(
        "png",
        &Vec::new(),
        None,
        false,
        Some("https://your.app/hook"),
        None,
        &Vec::new(),
        &JobSource::Upload,
    );
    assert!(sync.get("callback").is_none());
    assert!(sync.get("notify_status").is_none());
}

#[test]
fn conversion_options_and_category_are_sent_apart_from_controls() {
    let opts = ConvertOptions::new()
        .option("quality", j("80"))
        .option("width", j("10"))
        .option("quality", j("90"))
        .category("image");
    let body = payload_for(JobSource::Upload, &opts);
    let conversion = first_item(body.get("conversion"));
    assert_eq!(conversion, &j(r#"{"target": "png", "category": "image", "options": {"quality": 90, "width": 10}}"#));
    assert_eq!(
        render(&body),
        r#"{"conversion":[{"category":"image","options":{"quality":90,"width":10},"target":"png"}],"process":false}"#
    );
}

#[test]
fn output_index_selects_the_right_output() {
    let job = Job::from_value(&j(r#"{
        "id": "job1", "status": {"code": "completed"},
        "output": [{"uri": "https://cdn.example/first.png"}, {"uri": "https://cdn.example/second.png"}]
    }"#));
    let index = ConvertOptions::new().output_index(1).output_index;
    match select_output(&job.output, index) {
        Ok(o) => assert_eq!(o.uri, "https://cdn.example/second.png"),
        Err(_) => panic!("the second output exists"),
    }
    assert_eq!(job.output.len(), 2);
    match select_output(&job.output, 5) {
        Err(Api2ConvertError::Config(m)) => assert_eq!(m, "no output file at index 5 (job produced 2)"),
        _ => panic!("there is no sixth output"),
    }
}

#[test]
fn saves_into_a_directory_using_the_api_filename() {
    let out = output("https://cdn.example/x", Some("result.png"));
    assert_eq!(
        resolve_target("/tmp/dir", true, '/', out.filename.as_deref()),
        "/tmp/dir/result.png"
    );
    assert_eq!(resolve_target("/tmp/dir/", false, '/', Some("result.png")), "/tmp/dir/result.png");
    assert_eq!(resolve_target("/tmp/file.png", false, '/', Some("result.png")), "/tmp/file.png");
    assert_eq!(resolve_target("/tmp/dir", true, '/', None), "/tmp/dir/download");
    // The platform separator joins, and a directory that ends in it gets no second one.
    assert_eq!(resolve_target("C:\\dir\\", false, '\\', Some("a.png")), "C:\\dir\\a.png");
    assert_eq!(resolve_target("C:\\dir", true, '\\', Some("a.png")), "C:\\dir\\a.png");
    assert_eq!(resolve_target("C:/dir/", false, '\\', Some("a.png")), "C:/dir/a.png");
    let dl = download_request(&out.uri, None, "linux");
    assert!(dl.follow_redirects);
}

#[test]
fn directory_target_sanitizes_a_traversal_filename() {
    let path = resolve_target("/tmp/dir", true, '/', Some("../../etc/evil"));
    assert_eq!(path, "/tmp/dir/evil");
    assert!(path.starts_with("/tmp/dir/"));
    assert_eq!(safe_name(".."), "download");
    assert_eq!(safe_name("a\\b\\..\\"), "download");
    assert_eq!(safe_name("..\\..\\x.txt"), "x.txt");
    assert_eq!(safe_name("dir/./"), "dir");
    assert_eq!(safe_name("na\0me"), "name");
    assert_eq!(safe_name(""), "download");
}

#[test]
fn file_names_of_paths() {
    assert_eq!(file_name("/a/b.txt"), Some("b.txt".to_string()));
    assert_eq!(file_name("b.txt/."), Some("b.txt".to_string()));
    assert_eq!(file_name("/"), None);
    assert_eq!(file_name("a/.."), None);
    assert_eq!(file_name("."), None);
}

#[test]
fn contents_returns_the_bytes() {
    assert_eq!(add_chunk(0, 5, 0).ok(), Some(5));
}

#[test]
fn max_download_bytes_is_enforced() {
    match add_chunk(0, 18, 4) {
        Err(Api2ConvertError::Network(m)) => assert_eq!(m, "download exceeds the 4-byte limit"),
        _ => panic!("should exceed cap"),
    }
    assert_eq!(add_chunk(2, 2, 4).ok(), Some(4));
    assert_eq!(add_chunk(u64::MAX - 1, 1, 0).ok(), Some(u64::MAX));
}

#[test]
fn explicit_password_overrides_the_remembered_one() {
    let remembered = Some("remembered".to_string());
    assert_eq!(pick_password(Some("explicit"), &remembered), Some("explicit"));
    assert_eq!(pick_password(None, &remembered), Some("remembered"));
    assert_eq!(pick_password(None, &None), None);
}

#[test]
fn conversions_options_returns_the_first_rows_options() {
    let rows = match j(r#"[{"target": "png", "category": "image", "options": {"quality": {"type": "integer"}}}]"#) {
        Json::Array(items) => items,
        _ => unreachable!(),
    };
    let opts = options_from_rows(&rows);
    assert!(opts.iter().any(|(k, _)| k == "quality"));
    assert!(options_from_rows(&Vec::new()).is_empty());
    let url = build_url("http://api.test", "conversions", &conversions_query(Some("image"), Some("png"), None));
    assert!(url.starts_with("http://api.test/conversions?"));
    assert!(url.contains("target=png"));
    assert!(url.contains("category=image"));
    assert_eq!(url, "http://api.test/conversions?page=1&category=image&target=png");
}

#[test]
fn presets_paths_and_queries() {
    assert_eq!(preset_path("p1"), "presets/p1");
    assert_eq!(job_input_path("j 1"), "jobs/j%201/input");
    assert_eq!(job_output_path("j1"), "jobs/j1/output");
    let q = presets_query(Some(""), Some("png"), Some("mine"));
    assert_eq!(q, vec![("target".to_string(), "png".to_string()), ("filter".to_string(), "mine".to_string())]);
    assert_eq!(conversions_query(None, None, Some(0)), vec![("page".to_string(), "1".to_string())]);
}

#[test]
fn stats_periods_build_the_right_paths() {
    assert_eq!(stats_path("day", "2026-07-06", None), "stats/day/2026-07-06/all");
    assert_eq!(stats_path("month", "2026-07", Some("image")), "stats/month/2026-07/image");
    assert_eq!(stats_path("year", "2026", None), "stats/year/2026/all");
    assert_eq!(stats_path("year", "2026", Some("")), "stats/year/2026/all");
}

#[test]
fn convert_async_url_returns_without_polling() {
    let body = conversion_payload(
        "png",
        &Vec::new(),
        None,
        true,
        None,
        None,
        &Vec::new(),
        &JobSource::Url("https://example.com/in.jpg".to_string()),
    );
    assert_eq!(body.get("process"), Some(&Json::Bool(true)));
    assert_eq!(first_item(body.get("input")), &remote_input("https://example.com/in.jpg"));
    assert!(body.get("callback").is_none());
    assert!(body.get("notify_status").is_none());
    let job = Job::from_value(&j(r#"{"id": "job1", "status": {"code": "processing"}}"#));
    assert_eq!(job.id, "job1");
    assert!(!job.is_terminal());
}

#[test]
fn convert_async_local_uploads_and_starts_without_polling() {
    let body = conversion_payload("png", &Vec::new(), None, true, None, None, &Vec::new(), &JobSource::Upload);
    assert_eq!(body.get("process"), Some(&Json::Bool(false)));
    assert_eq!(start_payload(), j(r#"{"process": true}"#));
    let started = Job::from_value(&j(r#"{"id": "job1", "status": {"code": "processing"}}"#));
    assert_eq!(started.id, "job1");
}

#[test]
fn conversions_list_returns_rows() {
    let v = j(r#"[{"target": "png", "category": "image"}, {"target": "jpg", "category": "image"}]"#);
    let rows = api2convert::data::list(Some(&v));
    assert_eq!(rows.len(), 2);
    assert_eq!(rows[0].get("target"), Some(&s("png")));
    assert_eq!(
        build_url("http://api.test", "conversions", &conversions_query(Some("image"), None, None)),
        "http://api.test/conversions?page=1&category=image"
    );
}

#[test]
fn presets_list() {
    let presets = api2convert::models::presets_from(Some(&j(r#"[{"id": "p1", "name": "My preset", "target": "png"}]"#)));
    assert_eq!(presets.len(), 1);
    assert_eq!(presets[0].name, "My preset");
    assert_eq!(presets[0].target.as_deref(), Some("png"));
    assert!(presets_query(None, None, None).is_empty());
}

#[test]
fn presets_create() {
    let created = api2convert::models::Preset::from_value(&j(r#"{"id": "p2", "name": "New", "target": "jpg"}"#));
    assert_eq!(created.id.as_deref(), Some("p2"));
    assert_eq!(build_url("http://api.test", "presets", &Vec::new()), "http://api.test/presets");
}

#[test]
fn presets_get() {
    assert_eq!(build_url("http://api.test", &preset_path("p1"), &Vec::new()), "http://api.test/presets/p1");
}

#[test]
fn presets_update() {
    let updated = api2convert::models::Preset::from_value(&j(r#"{"id": "p1", "name": "Renamed"}"#));
    assert_eq!(updated.name, "Renamed");
    assert_eq!(preset_path("p1"), "presets/p1");
}

#[test]
fn presets_delete() {
    assert_eq!(preset_path("p1"), "presets/p1");
    assert!(api2convert::transport::request::interpret(
        200,
        true,
        &api2convert::transport::http::Headers::new(),
        None,
        0
    )
    .is_ok());
}

#[test]
fn contracts_get() {
    match api2convert::transport::request::interpret(
        200,
        false,
        &api2convert::transport::http::Headers::new(),
        Some(j(r#"{"plan": "business"}"#)),
        0,
    ) {
        Ok(c) => assert_eq!(c.get("plan"), Some(&s("business"))),
        Err(_) => panic!("a JSON body is the value"),
    }
    assert_eq!(build_url("http://api.test", "contracts", &Vec::new()), "http://api.test/contracts");
}
