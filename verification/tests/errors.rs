use rusty_llm::errors::{
    build_dfs_error_json, build_error_json, dataforseo_error, json_error,
};
use serde_json::Value;

#[test]
fn build_error_json_structure() {
    let json = build_error_json("Not found", "not_found", "req-123");
    assert_eq!(json["error"], "Not found");
    assert_eq!(json["code"], "not_found");
    assert_eq!(json["request_id"], "req-123");
    assert_eq!(json.as_object().unwrap().len(), 3);
}

#[test]
fn build_error_json_empty_request_id() {
    let json = build_error_json("err", "code", "");
    assert_eq!(json["request_id"], "");
}

#[test]
fn build_error_json_special_chars_in_message() {
    let json = build_error_json("Error: \"bad\" <input>", "err", "id");
    assert_eq!(json["error"].as_str().unwrap(), "Error: \"bad\" <input>");
}

#[test]
fn build_dfs_error_json_structure() {
    let json = build_dfs_error_json(403, "Forbidden", "dataforseo_error", "req-456");
    assert_eq!(json["dataforseo_status"], 403);
    assert_eq!(json["dataforseo_body"], "Forbidden");
    assert_eq!(json["code"], "dataforseo_error");
    assert_eq!(json["request_id"], "req-456");
    assert!(json["error"].as_str().unwrap().len() > 0);
}

#[test]
fn build_dfs_error_json_truncates_large_body() {
    let large_body = "x".repeat(5000);
    let json = build_dfs_error_json(500, &large_body, "dataforseo_error", "req");
    let body_str = json["dataforseo_body"].as_str().unwrap();
    assert!(body_str.len() <= 4096, "Body should be truncated to 4KB");
}

#[test]
fn build_dfs_error_json_status_zero_for_network_error() {
    let json = build_dfs_error_json(0, "", "dataforseo_error", "req");
    assert_eq!(json["dataforseo_status"], 0);
}

#[test]
fn json_error_is_a_response() {
    let response = json_error(418, "No \"coffee\"\n", "teapot", "req-7");
    assert_eq!(response.status, 418);
    assert_eq!(
        response.headers,
        vec![
            ("Content-Type".to_string(), "application/json".to_string()),
            ("X-RustyLLM-Request-Id".to_string(), "req-7".to_string()),
        ]
    );
    assert_eq!(
        response.body,
        r#"{"code":"teapot","error":"No \"coffee\"\n","request_id":"req-7"}"#
    );
}

#[test]
fn dataforseo_error_is_a_response() {
    let response = dataforseo_error(403, "Forbidden", "dataforseo_error", "req-8");
    assert_eq!(response.status, 502);
    assert_eq!(
        response.headers[1],
        ("X-RustyLLM-Request-Id".to_string(), "req-8".to_string())
    );
    let body: Value = serde_json::from_str(&response.body).unwrap();
    assert_eq!(body["request_id"], "req-8");
    assert_eq!(body["error"], "DataForSEO returned non-success status");
    assert_eq!(body["code"], "dataforseo_error");
    assert_eq!(body["dataforseo_status"], 403);
    assert_eq!(body["dataforseo_body"], "Forbidden");
    assert_eq!(body.as_object().unwrap().len(), 5);
}

#[test]
fn upstream_body_is_cut_between_characters() {
    let body = "x".repeat(4095) + "é";
    let json = build_dfs_error_json(500, &body, "dataforseo_error", "req");
    assert_eq!(json["dataforseo_body"], "x".repeat(4095));
    let body = "x".repeat(4094) + "é";
    let json = build_dfs_error_json(500, &body, "dataforseo_error", "req");
    assert_eq!(json["dataforseo_body"], body.as_str());
}
