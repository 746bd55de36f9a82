use base64::engine::general_purpose::STANDARD;
use base64::Engine;
use rusty_llm::dataforseo::{
    build_auth_header, build_dfs_task, build_envelope, wrap_task_array, ProviderOutcome,
};
use rusty_llm::providers::Provider;
use rusty_llm::validation::{LlmRequest, Location};
use serde_json::Value;

fn make_request(provider: Provider, keyword: &str, location: Location) -> LlmRequest {
    LlmRequest {
        provider,
        keyword: keyword.to_string(),
        location,
        language: "en".to_string(),
        force_web_search: false,
        tag: None,
    }
}

fn ok_outcome(model: &str, ms: u64) -> ProviderOutcome {
    ProviderOutcome {
        status: "ok",
        duration_ms: ms,
        model: Some(model.to_string()),
        dfs_cost_cents: Some(40),
        response_body: Some(serde_json::from_str(r#"{"tasks": []}"#).unwrap()),
        error: None,
        code: None,
        dataforseo_status: None,
        dataforseo_body: None,
        retried: false,
    }
}

fn err_outcome(ms: u64) -> ProviderOutcome {
    ProviderOutcome {
        status: "error",
        duration_ms: ms,
        model: None,
        dfs_cost_cents: None,
        response_body: None,
        error: Some("Upstream failed".to_string()),
        code: Some("dataforseo_error".to_string()),
        dataforseo_status: Some(500),
        dataforseo_body: Some("Internal error".to_string()),
        retried: false,
    }
}

#[test]
fn build_task_basic_gemini() {
    let req = make_request(Provider::Gemini, "test query", Location::Code(2840));
    let task = build_dfs_task(&req, "req-123");
    assert_eq!(task["keyword"], "test query");
    assert_eq!(task["language_code"], "en");
    assert_eq!(task["location_code"], 2840);
    assert_eq!(task["tag"], "req-123");
}

#[test]
fn build_task_location_code() {
    let req = make_request(Provider::Gemini, "test", Location::Code(1234));
    let task = build_dfs_task(&req, "id");
    assert_eq!(task["location_code"], 1234);
    assert!(task.get("location_name").is_none() || task["location_name"].is_null());
}

#[test]
fn build_task_location_name() {
    let req = make_request(
        Provider::Gemini,
        "test",
        Location::Name("United States".to_string()),
    );
    let task = build_dfs_task(&req, "id");
    assert_eq!(task["location_name"], "United States");
    assert!(task.get("location_code").is_none() || task["location_code"].is_null());
}

#[test]
fn build_task_chatgpt_with_force_web_search() {
    let mut req = make_request(Provider::ChatGpt, "test", Location::Code(2840));
    req.force_web_search = true;
    let task = build_dfs_task(&req, "id");
    assert_eq!(task["force_web_search"], true);
}

#[test]
fn build_task_chatgpt_without_force_web_search() {
    let req = make_request(Provider::ChatGpt, "test", Location::Code(2840));
    let task = build_dfs_task(&req, "id");
    assert!(task.get("force_web_search").is_none() || task["force_web_search"].is_null());
}

#[test]
fn build_task_gemini_ignores_force_web_search() {
    let mut req = make_request(Provider::Gemini, "test", Location::Code(2840));
    req.force_web_search = true;
    let task = build_dfs_task(&req, "id");
    assert!(task.get("force_web_search").is_none() || task["force_web_search"].is_null());
}

#[test]
fn build_task_custom_tag() {
    let mut req = make_request(Provider::Gemini, "test", Location::Code(2840));
    req.tag = Some("custom-tag-123".to_string());
    let task = build_dfs_task(&req, "req-id");
    assert_eq!(task["tag"], "custom-tag-123");
}

#[test]
fn build_task_no_tag_uses_request_id() {
    let req = make_request(Provider::Gemini, "test", Location::Code(2840));
    let task = build_dfs_task(&req, "my-request-id");
    assert_eq!(task["tag"], "my-request-id");
}

#[test]
fn build_task_custom_language() {
    let mut req = make_request(Provider::Gemini, "test", Location::Code(2840));
    req.language = "fr".to_string();
    let task = build_dfs_task(&req, "id");
    assert_eq!(task["language_code"], "fr");
}

#[test]
fn build_task_keyword_preserved_verbatim() {
    let req = make_request(
        Provider::Gemini,
        "hello world + stuff",
        Location::Code(2840),
    );
    let task = build_dfs_task(&req, "id");
    assert_eq!(task["keyword"], "hello world + stuff");
}

#[test]
fn auth_header_basic_format() {
    let header = build_auth_header("user@test.com", "mypassword");
    assert!(header.starts_with("Basic "));
}

#[test]
fn auth_header_correct_base64() {
    let header = build_auth_header("user", "pass");
    assert_eq!(header, "Basic dXNlcjpwYXNz");
}

#[test]
fn auth_header_special_chars() {
    let header = build_auth_header("email@domain.com", "p@ss:word!");
    let encoded = header.strip_prefix("Basic ").unwrap();
    let decoded = String::from_utf8(STANDARD.decode(encoded).unwrap()).unwrap();
    assert_eq!(decoded, "email@domain.com:p@ss:word!");
}

#[test]
fn wrap_task_produces_array() {
    let task: Value = serde_json::from_str(r#"{"keyword": "test"}"#).unwrap();
    let result = wrap_task_array(task);
    let parsed: Value = serde_json::from_str(&result).unwrap();
    assert!(parsed.is_array());
    assert_eq!(parsed.as_array().unwrap().len(), 1);
}

#[test]
fn wrap_task_preserves_content() {
    let task: Value = serde_json::from_str(r#"{"keyword": "hello", "location_code": 2840}"#).unwrap();
    let result = wrap_task_array(task);
    let parsed: Value = serde_json::from_str(&result).unwrap();
    assert_eq!(parsed[0]["keyword"], "hello");
    assert_eq!(parsed[0]["location_code"], 2840);
}

#[test]
fn envelope_both_ok_returns_200() {
    let (status, envelope) = build_envelope(
        ok_outcome("gemini-2.0", 4000),
        ok_outcome("gpt-4o", 8000),
        "req-1",
        8000,
    );
    assert_eq!(status, 200);
    assert_eq!(envelope["gemini"]["status"], "ok");
    assert_eq!(envelope["chatgpt"]["status"], "ok");
    assert_eq!(envelope["request_id"], "req-1");
}

#[test]
fn envelope_one_fails_returns_207() {
    let (status, envelope) = build_envelope(
        ok_outcome("gemini-2.0", 4000),
        err_outcome(12000),
        "req-2",
        12000,
    );
    assert_eq!(status, 207);
    assert_eq!(envelope["gemini"]["status"], "ok");
    assert_eq!(envelope["chatgpt"]["status"], "error");
}

#[test]
fn envelope_both_fail_returns_502() {
    let (status, _) = build_envelope(err_outcome(5000), err_outcome(8000), "req-3", 8000);
    assert_eq!(status, 502);
}

#[test]
fn envelope_includes_per_provider_timing() {
    let (_, envelope) = build_envelope(
        ok_outcome("gemini-2.0", 3500),
        ok_outcome("gpt-4o", 7200),
        "req-4",
        7200,
    );
    assert_eq!(envelope["gemini"]["duration_ms"], 3500);
    assert_eq!(envelope["chatgpt"]["duration_ms"], 7200);
    assert_eq!(envelope["duration_ms"], 7200);
}

#[test]
fn envelope_error_includes_details() {
    let (_, envelope) = build_envelope(
        ok_outcome("gemini-2.0", 4000),
        err_outcome(12000),
        "req-5",
        12000,
    );
    assert_eq!(envelope["chatgpt"]["dataforseo_status"], 500);
    assert!(
        envelope["chatgpt"]["dataforseo_body"]
            .as_str()
            .unwrap()
            .len()
            > 0
    );
}

#[test]
fn task_holds_nothing_else() {
    let mut req = make_request(Provider::Both, "test", Location::Name("a \"b\"".to_string()));
    req.force_web_search = true;
    let expected: Value = serde_json::from_str(
        r#"{"keyword": "test", "language_code": "en", "location_name": "a \"b\"",
            "force_web_search": true, "tag": "id"}"#,
    )
    .unwrap();
    assert_eq!(build_dfs_task(&req, "id"), expected);
    let req = make_request(Provider::Gemini, "test", Location::Code(i64::MAX));
    let expected: Value = serde_json::from_str(
        r#"{"keyword": "test", "language_code": "en", "location_code": 9223372036854775807,
            "tag": "id"}"#,
    )
    .unwrap();
    assert_eq!(build_dfs_task(&req, "id"), expected);
}

#[test]
fn task_is_written_as_an_array() {
    let req = make_request(Provider::Gemini, "k", Location::Code(2840));
    assert_eq!(
        wrap_task_array(build_dfs_task(&req, "id")),
        r#"[{"keyword":"k","language_code":"en","location_code":2840,"tag":"id"}]"#
    );
}

#[test]
fn auth_header_of_other_credentials() {
    assert_eq!(build_auth_header("", ""), "Basic Og==");
    assert_eq!(build_auth_header("é", "ü"), "Basic w6k6w7w=");
    assert_eq!(build_auth_header("a", "b?>"), "Basic YTpiPz4=");
}

#[test]
fn envelope_holds_what_is_known() {
    let (_, envelope) = build_envelope(ok_outcome("m", 1), err_outcome(2), "req-6", 3);
    let expected: Value = serde_json::from_str(
        r#"{"request_id": "req-6", "provider": "both", "duration_ms": 3,
            "gemini": {"status": "ok", "duration_ms": 1, "retried": false, "model": "m",
                "dfs_cost_cents": 40, "response": {"tasks": []}},
            "chatgpt": {"status": "error", "duration_ms": 2, "retried": false,
                "error": "Upstream failed", "code": "dataforseo_error",
                "dataforseo_status": 500, "dataforseo_body": "Internal error"}}"#,
    )
    .unwrap();
    assert_eq!(envelope, expected);
}

#[test]
fn envelope_keeps_one_providers_part_whatever_the_other_did() {
    let (status, alone) = build_envelope(ok_outcome("m", 1), err_outcome(2), "r", 3);
    let (both, together) = build_envelope(ok_outcome("m", 1), ok_outcome("n", 2), "r", 3);
    assert_eq!((status, both), (207, 200));
    assert_eq!(alone["gemini"], together["gemini"]);
    let (status, other) = build_envelope(err_outcome(2), ok_outcome("m", 1), "r", 3);
    assert_eq!(status, 207);
    assert_eq!(other["chatgpt"], alone["gemini"]);
}

#[test]
fn credentials_of_every_length_come_back() {
    let bytes: String = (1..=255).filter_map(char::from_u32).collect();
    for (i, _) in bytes.char_indices() {
        let login = &bytes[..i];
        let header = build_auth_header(login, "p:w");
        let decoded = STANDARD.decode(header.strip_prefix("Basic ").unwrap()).unwrap();
        assert_eq!(String::from_utf8(decoded).unwrap(), format!("{login}:p:w"));
    }
    assert_eq!(build_auth_header("ÿ", "ÿ~"), "Basic w786w79+");
}

#[test]
fn task_with_floats_is_read_again() {
    for number in [
        0.0,
        -0.0,
        0.04,
        11.157180677781069,
        1e16,
        1.5e-7,
        f64::from_bits(1),
        f64::from_bits(0x7fdf_ffff_ffff_ffff),
        -f64::from_bits(0x7fdf_ffff_ffff_ffff),
    ] {
        let mut task: Value = serde_json::from_str(r#"{"keyword": "k", "n": [1, null]}"#).unwrap();
        task["cost"] = Value::from(number);
        let mut read: Value = serde_json::from_str(&wrap_task_array(task.clone())).unwrap();
        assert_eq!(read.as_array().unwrap().len(), 1);
        assert!(read[0]["cost"].is_f64());
        read[0]["cost"] = Value::from(number);
        assert_eq!(read[0], task);
    }
}

#[test]
fn deep_task_is_read_again() {
    let mut task = Value::Null;
    for _ in 0..126 {
        task = Value::Array(vec![task]);
    }
    let read: Value = serde_json::from_str(&wrap_task_array(task.clone())).unwrap();
    assert_eq!(read[0], task);
    let deeper = Value::Array(vec![task]);
    assert!(serde_json::from_str::<Value>(&wrap_task_array(deeper)).is_err());
}
