use rusty_llm::health::{build_health_body, handle_health, handle_health_head};
use serde_json::Value;

#[test]
fn health_body_structure() {
    let body = build_health_body("0.1.0", true);
    assert_eq!(body["status"], "ok");
    assert_eq!(body["version"], "0.1.0");
    assert_eq!(body["secrets_configured"], true);
    let providers = body["providers"].as_array().unwrap();
    assert_eq!(providers.len(), 3);
}

#[test]
fn health_body_secrets_false() {
    let body = build_health_body("0.1.0", false);
    assert_eq!(body["secrets_configured"], false);
}

#[test]
fn health_body_providers_order() {
    let body = build_health_body("0.1.0", true);
    let providers: Vec<&str> = body["providers"]
        .as_array()
        .unwrap()
        .iter()
        .map(|v| v.as_str().unwrap())
        .collect();
    assert_eq!(providers, vec!["gemini", "chatgpt", "both"]);
}

#[test]
fn health_is_answered_in_json() {
    let response = handle_health("0.1.0", true, true, true);
    assert_eq!(response.status, 200);
    assert_eq!(
        response.headers,
        vec![("Content-Type".to_string(), "application/json".to_string())]
    );
    assert_eq!(
        response.body,
        r#"{"providers":["gemini","chatgpt","both"],"secrets_configured":true,"status":"ok","version":"0.1.0"}"#
    );
}

#[test]
fn health_needs_every_secret() {
    for secrets in 0..8 {
        let response = handle_health("1", secrets & 1 != 0, secrets & 2 != 0, secrets & 4 != 0);
        let body: Value = serde_json::from_str(&response.body).unwrap();
        assert_eq!(body["secrets_configured"], secrets == 7);
    }
}

#[test]
fn health_head_tells_the_length_of_the_body() {
    for version in ["0.1.0", "é", "\"\u{1}"] {
        for ok in [true, false] {
            let get = handle_health(version, true, ok, true);
            let head = handle_health_head(version, true, ok, true);
            assert_eq!(head.status, get.status);
            assert_eq!(head.body, "");
            assert_eq!(
                head.headers,
                vec![
                    ("Content-Type".to_string(), "application/json".to_string()),
                    ("Content-Length".to_string(), get.body.len().to_string()),
                ]
            );
        }
    }
}
