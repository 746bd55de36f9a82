use rusty_llm::metadata::{attach_metadata_headers, extract_metadata};
use rusty_llm::providers::Provider;

#[test]
fn extract_metadata_valid_response() {
    let body = r#"{"tasks":[{"status_code":20000,"cost":0.04,"result":[{"model":"gemini-2.0-flash"}]}]}"#;
    let (model, cost, status) = extract_metadata(body);
    assert_eq!(model.as_deref(), Some("gemini-2.0-flash"));
    assert_eq!(cost, Some(4));
    assert_eq!(status, Some(20000));
}

#[test]
fn extract_metadata_empty_string() {
    let (model, cost, status) = extract_metadata("");
    assert_eq!(model, None);
    assert_eq!(cost, None);
    assert_eq!(status, None);
}

#[test]
fn extract_metadata_invalid_json() {
    let (model, cost, status) = extract_metadata("{not valid json");
    assert_eq!(model, None);
    assert_eq!(cost, None);
    assert_eq!(status, None);
}

#[test]
fn extract_metadata_missing_result() {
    let body = r#"{"tasks":[{"status_code":20000,"cost":0.04}]}"#;
    let (model, cost, status) = extract_metadata(body);
    assert_eq!(model, None);
    assert_eq!(cost, Some(4));
    assert_eq!(status, Some(20000));
}

#[test]
fn extract_metadata_null_model() {
    let body = r#"{"tasks":[{"status_code":20000,"cost":0.04,"result":[{"model":null}]}]}"#;
    let (model, cost, status) = extract_metadata(body);
    assert_eq!(model, None);
    assert_eq!(cost, Some(4));
    assert_eq!(status, Some(20000));
}

#[test]
fn extract_metadata_empty_tasks() {
    let body = r#"{"tasks":[]}"#;
    let (model, cost, status) = extract_metadata(body);
    assert_eq!(model, None);
    assert_eq!(cost, None);
    assert_eq!(status, None);
}

#[test]
fn extract_metadata_chatgpt_model() {
    let body = r#"{"tasks":[{"status_code":20000,"cost":0.04,"result":[{"model":"gpt-4o"}]}]}"#;
    let (model, _cost, _status) = extract_metadata(body);
    assert_eq!(model.as_deref(), Some("gpt-4o"));
}

fn cost(number: &str) -> Option<u64> {
    extract_metadata(&format!(r#"{{"tasks":[{{"cost":{number}}}]}}"#)).1
}

#[test]
fn extract_metadata_cost_in_cents() {
    for number in [
        "0", "1", "3", "-1", "0.04", "0.0449", "0.045", "0.005", "0.015", "1.005", "-0.5", "1e-300",
        "12345.678", "1e17", "1e18", "1e300", "9007199254740993", "184467440737095516",
        "184467440737095517", "9223372036854775807", "18446744073709551615", "-9223372036854775808",
        "18446744073709551616", "2.5e-3", "4.9e-324", "1.7976931348623157e308",
    ] {
        let dollars: f64 = number.parse().unwrap();
        assert_eq!(cost(number), Some((dollars * 100.0).round() as u64), "{number}");
    }
    assert_eq!(cost("0.04"), Some(4));
    assert_eq!(cost("2"), Some(200));
}

#[test]
fn extract_metadata_of_other_types_is_none() {
    for value in ["null", "true", "\"0.04\"", "[0.04]", "{}"] {
        assert_eq!(cost(value), None);
    }
    let body = r#"{"tasks":[{"status_code":20000.0,"result":[{"model":4}]}]}"#;
    assert_eq!(extract_metadata(body), (None, None, None));
    let body = r#"{"tasks":{"0":{"status_code":1}}}"#;
    assert_eq!(extract_metadata(body), (None, None, None));
    let body = r#"{"tasks":[{"status_code":-7},{"status_code":8,"cost":1}]}"#;
    assert_eq!(extract_metadata(body), (None, None, Some(-7)));
}

fn header<'a>(headers: &'a [(String, String)], name: &str) -> Option<&'a str> {
    headers
        .iter()
        .find(|header| header.0 == name)
        .map(|header| header.1.as_str())
}

#[test]
fn answer_is_passed_on_under_headers() {
    let body = r#"{ "tasks":[{"status_code":20000,"cost":0.04,"result":[{"model":"gpt-4o"}]}] }"#;
    let (response, extracted) =
        attach_metadata_headers(body.to_string(), "req-3", &Provider::ChatGpt, 4200, true);
    assert_eq!(response.status, 200);
    assert_eq!(response.body, body);
    assert_eq!(extracted.dfs_status, Some(20000));
    assert_eq!(response.headers.len(), 8);
    let expected = [
        ("Content-Type", "application/json"),
        ("X-RustyLLM-Request-Id", "req-3"),
        ("X-RustyLLM-Provider", "chatgpt"),
        ("X-RustyLLM-Model", "gpt-4o"),
        ("X-RustyLLM-Duration-Ms", "4200"),
        ("X-RustyLLM-DFS-Cost-Cents", "4"),
        ("X-RustyLLM-DFS-Status", "20000"),
        ("X-RustyLLM-Retried", "true"),
    ];
    for (name, value) in expected {
        assert_eq!(header(&response.headers, name), Some(value));
    }
}

#[test]
fn answer_that_cannot_be_read_is_passed_on() {
    let body = "<html>\u{0}";
    let (response, extracted) =
        attach_metadata_headers(body.to_string(), "req-3", &Provider::Gemini, 0, false);
    assert_eq!(response.status, 200);
    assert_eq!(response.body, body);
    assert_eq!(extracted.dfs_status, None);
    assert_eq!(response.headers.len(), 5);
    assert_eq!(header(&response.headers, "X-RustyLLM-Provider"), Some("gemini"));
    assert_eq!(header(&response.headers, "X-RustyLLM-Duration-Ms"), Some("0"));
    assert_eq!(header(&response.headers, "X-RustyLLM-Retried"), Some("false"));
    assert_eq!(header(&response.headers, "X-RustyLLM-Model"), None);
}

#[test]
fn numbers_in_headers_are_decimal() {
    let body = r#"{"tasks":[{"status_code":-9223372036854775808,"cost":1e40}]}"#;
    let (response, _) = attach_metadata_headers(
        body.to_string(),
        "",
        &Provider::Gemini,
        18446744073709551615,
        false,
    );
    assert_eq!(
        header(&response.headers, "X-RustyLLM-Duration-Ms"),
        Some("18446744073709551615")
    );
    assert_eq!(
        header(&response.headers, "X-RustyLLM-DFS-Cost-Cents"),
        Some("18446744073709551615")
    );
    assert_eq!(
        header(&response.headers, "X-RustyLLM-DFS-Status"),
        Some("-9223372036854775808")
    );
}
