use rusty_llm::providers::Provider;
use rusty_llm::validation::{parse_and_validate_body, validate_fields, Location};
use serde_json::Value;

fn json(text: &str) -> Value {
    serde_json::from_str(text).unwrap()
}

#[test]
fn validate_missing_provider() {
    let body = json(r#"{"keyword": "test", "location": 2840}"#);
    let err = validate_fields(&body).unwrap_err();
    assert_eq!(err.2, "missing_provider");
}

#[test]
fn validate_invalid_provider() {
    let body = json(r#"{"provider": "perplexity", "keyword": "test", "location": 2840}"#);
    let err = validate_fields(&body).unwrap_err();
    assert_eq!(err.2, "invalid_provider");
}

#[test]
fn validate_provider_not_string() {
    let body = json(r#"{"provider": 123, "keyword": "test", "location": 2840}"#);
    let err = validate_fields(&body).unwrap_err();
    assert_eq!(err.2, "invalid_provider");
}

#[test]
fn validate_missing_keyword() {
    let body = json(r#"{"provider": "gemini", "location": 2840}"#);
    let err = validate_fields(&body).unwrap_err();
    assert_eq!(err.2, "missing_keyword");
}

#[test]
fn validate_empty_keyword_after_sanitization() {
    let body = json(r#"{"provider": "gemini", "keyword": "   ", "location": 2840}"#);
    let err = validate_fields(&body).unwrap_err();
    assert_eq!(err.2, "invalid_keyword");
}

#[test]
fn validate_keyword_too_long() {
    let long_kw = "a".repeat(2001);
    let body = json(&format!(
        r#"{{"provider": "gemini", "keyword": "{long_kw}", "location": 2840}}"#
    ));
    let err = validate_fields(&body).unwrap_err();
    assert_eq!(err.2, "invalid_keyword");
}

#[test]
fn validate_keyword_at_max_length() {
    let kw = "a".repeat(2000);
    let body = json(&format!(
        r#"{{"provider": "gemini", "keyword": "{kw}", "location": 2840}}"#
    ));
    assert!(validate_fields(&body).is_ok());
}

#[test]
fn validate_missing_location() {
    let body = json(r#"{"provider": "gemini", "keyword": "test"}"#);
    let err = validate_fields(&body).unwrap_err();
    assert_eq!(err.2, "missing_location");
}

#[test]
fn validate_location_positive_int() {
    let body = json(r#"{"provider": "gemini", "keyword": "test", "location": 2840}"#);
    let req = validate_fields(&body).unwrap();
    assert!(matches!(req.location, Location::Code(2840)));
}

#[test]
fn validate_location_string() {
    let body = json(r#"{"provider": "gemini", "keyword": "test", "location": "United States"}"#);
    let req = validate_fields(&body).unwrap();
    assert!(matches!(req.location, Location::Name(ref s) if s == "United States"));
}

#[test]
fn validate_location_negative_int() {
    let body = json(r#"{"provider": "gemini", "keyword": "test", "location": -5}"#);
    let err = validate_fields(&body).unwrap_err();
    assert_eq!(err.2, "invalid_location");
}

#[test]
fn validate_location_zero() {
    let body = json(r#"{"provider": "gemini", "keyword": "test", "location": 0}"#);
    let err = validate_fields(&body).unwrap_err();
    assert_eq!(err.2, "invalid_location");
}

#[test]
fn validate_location_empty_string() {
    let body = json(r#"{"provider": "gemini", "keyword": "test", "location": ""}"#);
    let err = validate_fields(&body).unwrap_err();
    assert_eq!(err.2, "invalid_location");
}

#[test]
fn validate_language_default() {
    let body = json(r#"{"provider": "gemini", "keyword": "test", "location": 2840}"#);
    let req = validate_fields(&body).unwrap();
    assert_eq!(req.language, "en");
}

#[test]
fn validate_language_valid() {
    let body = json(
        r#"{"provider": "gemini", "keyword": "test", "location": 2840, "language": "fr"}"#,
    );
    let req = validate_fields(&body).unwrap();
    assert_eq!(req.language, "fr");
}

#[test]
fn validate_language_too_long() {
    let body = json(
        r#"{"provider": "gemini", "keyword": "test", "location": 2840, "language": "English"}"#,
    );
    let err = validate_fields(&body).unwrap_err();
    assert_eq!(err.2, "invalid_language");
}

#[test]
fn validate_language_has_numbers() {
    let body = json(
        r#"{"provider": "gemini", "keyword": "test", "location": 2840, "language": "e1"}"#,
    );
    let err = validate_fields(&body).unwrap_err();
    assert_eq!(err.2, "invalid_language");
}

#[test]
fn validate_force_web_search_chatgpt_true() {
    let body = json(
        r#"{"provider": "chatgpt", "keyword": "test", "location": 2840, "force_web_search": true}"#,
    );
    let req = validate_fields(&body).unwrap();
    assert!(req.force_web_search);
}

#[test]
fn validate_force_web_search_chatgpt_false() {
    let body = json(
        r#"{"provider": "chatgpt", "keyword": "test", "location": 2840, "force_web_search": false}"#,
    );
    let req = validate_fields(&body).unwrap();
    assert!(!req.force_web_search);
}

#[test]
fn validate_force_web_search_gemini_true_error() {
    let body = json(
        r#"{"provider": "gemini", "keyword": "test", "location": 2840, "force_web_search": true}"#,
    );
    let err = validate_fields(&body).unwrap_err();
    assert_eq!(err.2, "invalid_field_for_provider");
}

#[test]
fn validate_force_web_search_gemini_false_ok() {
    let body = json(
        r#"{"provider": "gemini", "keyword": "test", "location": 2840, "force_web_search": false}"#,
    );
    assert!(validate_fields(&body).is_ok());
}

#[test]
fn validate_force_web_search_both_true_ok() {
    let body = json(
        r#"{"provider": "both", "keyword": "test", "location": 2840, "force_web_search": true}"#,
    );
    assert!(validate_fields(&body).is_ok());
}

#[test]
fn validate_force_web_search_not_boolean() {
    let body = json(
        r#"{"provider": "chatgpt", "keyword": "test", "location": 2840, "force_web_search": "true"}"#,
    );
    let err = validate_fields(&body).unwrap_err();
    assert_eq!(err.2, "invalid_force_web_search");
}

#[test]
fn validate_tag_valid() {
    let body = json(
        r#"{"provider": "gemini", "keyword": "test", "location": 2840, "tag": "my-tag-123"}"#,
    );
    let req = validate_fields(&body).unwrap();
    assert_eq!(req.tag, Some("my-tag-123".to_string()));
}

#[test]
fn validate_tag_too_long() {
    let long_tag = "x".repeat(256);
    let body = json(&format!(
        r#"{{"provider": "gemini", "keyword": "test", "location": 2840, "tag": "{long_tag}"}}"#
    ));
    let err = validate_fields(&body).unwrap_err();
    assert_eq!(err.2, "invalid_tag");
}

fn refusal(text: &str) -> (u16, &'static str, &'static str) {
    validate_fields(&json(text)).unwrap_err()
}

#[test]
fn provider_refusals() {
    assert_eq!(
        refusal(r#"{"keyword": "k", "location": 1}"#),
        (400, "Missing required field: provider", "missing_provider")
    );
    assert_eq!(
        refusal(r#"{"provider": null, "keyword": "k", "location": 1}"#),
        (400, "Field 'provider' must be a string", "invalid_provider")
    );
    assert_eq!(
        refusal(r#"{"provider": "gemini ", "keyword": "k", "location": 1}"#),
        (400, "Invalid provider. Must be 'gemini', 'chatgpt', or 'both'", "invalid_provider")
    );
    for text in ["[]", "null", "1", "true", r#""provider""#] {
        assert_eq!(refusal(text).2, "missing_provider");
    }
}

#[test]
fn keyword_refusals() {
    assert_eq!(
        refusal(r#"{"provider": "both", "location": 1}"#),
        (400, "Missing required field: keyword", "missing_keyword")
    );
    assert_eq!(
        refusal(r#"{"provider": "both", "keyword": ["k"], "location": 1}"#),
        (400, "Field 'keyword' must be a string", "missing_keyword")
    );
    assert_eq!(
        refusal(r#"{"provider": "both", "keyword": "\u0000\t", "location": 1}"#),
        (400, "Keyword is empty after sanitization", "invalid_keyword")
    );
    let long = "k".repeat(2001);
    assert_eq!(
        refusal(&format!(r#"{{"provider": "both", "keyword": "{long}", "location": 1}}"#)),
        (400, "Keyword exceeds 2000 character limit", "invalid_keyword")
    );
}

#[test]
fn keyword_limit_counts_characters() {
    for letter in ["é", "字", "🦀"] {
        let longest = letter.repeat(2000);
        let body = format!(r#"{{"provider": "both", "keyword": "{longest}", "location": 1}}"#);
        assert_eq!(validate_fields(&json(&body)).unwrap().keyword, longest);
        let body = format!(r#"{{"provider": "both", "keyword": "{longest}{letter}", "location": 1}}"#);
        assert_eq!(refusal(&body).2, "invalid_keyword");
    }
}

#[test]
fn keyword_limit_holds_after_sanitization() {
    let words = "k  ".repeat(1000);
    let body = format!(r#"{{"provider": "both", "keyword": "{words}", "location": 1}}"#);
    assert_eq!(validate_fields(&json(&body)).unwrap().keyword.len(), 1999);
}

#[test]
fn location_refusals() {
    assert_eq!(
        refusal(r#"{"provider": "both", "keyword": "k"}"#),
        (400, "Missing required field: location", "missing_location")
    );
    assert_eq!(
        refusal(r#"{"provider": "both", "keyword": "k", "location": 0}"#),
        (400, "Location code must be a positive integer", "invalid_location")
    );
    assert_eq!(
        refusal(r#"{"provider": "both", "keyword": "k", "location": ""}"#),
        (400, "Location name must be non-empty", "invalid_location")
    );
    for value in ["null", "true", "2840.0", "1e3", "9223372036854775808", "[1]", "{}"] {
        assert_eq!(
            refusal(&format!(
                r#"{{"provider": "both", "keyword": "k", "location": {value}}}"#
            )),
            (
                400,
                "Location must be a positive integer or non-empty string",
                "invalid_location"
            )
        );
    }
}

#[test]
fn location_is_kept_as_it_is() {
    let body = json(r#"{"provider": "both", "keyword": "k", "location": 9223372036854775807}"#);
    let request = validate_fields(&body).unwrap();
    assert!(matches!(request.location, Location::Code(9223372036854775807)));
    let body = json(r#"{"provider": "both", "keyword": "k", "location": " a  b "}"#);
    let request = validate_fields(&body).unwrap();
    assert!(matches!(request.location, Location::Name(ref name) if name == " a  b "));
}

#[test]
fn language_refusals() {
    assert_eq!(
        refusal(r#"{"provider": "both", "keyword": "k", "location": 1, "language": 1}"#),
        (400, "Field 'language' must be a string", "invalid_language")
    );
    for language in ["", "e", "enenen", "EN", "en-us", "e n", "éé", "za{", "za`"] {
        assert_eq!(
            refusal(&format!(
                r#"{{"provider": "both", "keyword": "k", "location": 1, "language": "{language}"}}"#
            )),
            (
                400,
                "Language must be 2-5 lowercase letters (e.g., 'en', 'fr')",
                "invalid_language"
            )
        );
    }
    for language in ["az", "zza", "abcd", "zhzhz"] {
        let body = format!(
            r#"{{"provider": "both", "keyword": "k", "location": 1, "language": "{language}"}}"#
        );
        assert_eq!(validate_fields(&json(&body)).unwrap().language, language);
    }
}

#[test]
fn force_web_search_refusals() {
    assert_eq!(
        refusal(r#"{"provider": "both", "keyword": "k", "location": 1, "force_web_search": 1}"#),
        (400, "Field 'force_web_search' must be a boolean", "invalid_force_web_search")
    );
    assert_eq!(
        refusal(
            r#"{"provider": "gemini", "keyword": "k", "location": 1, "force_web_search": true}"#
        ),
        (
            400,
            "force_web_search is only supported for the chatgpt provider",
            "invalid_field_for_provider"
        )
    );
}

#[test]
fn tag_refusals() {
    assert_eq!(
        refusal(r#"{"provider": "both", "keyword": "k", "location": 1, "tag": 7}"#),
        (400, "Field 'tag' must be a string", "invalid_tag")
    );
    let long = "é".repeat(256);
    assert_eq!(
        refusal(&format!(
            r#"{{"provider": "both", "keyword": "k", "location": 1, "tag": "{long}"}}"#
        )),
        (400, "Tag exceeds 255 character limit", "invalid_tag")
    );
    let longest = "é".repeat(255);
    let body = format!(r#"{{"provider": "both", "keyword": "k", "location": 1, "tag": "{longest}"}}"#);
    assert_eq!(validate_fields(&json(&body)).unwrap().tag, Some(longest));
    let body = json(r#"{"provider": "both", "keyword": "k", "location": 1, "tag": ""}"#);
    assert_eq!(validate_fields(&body).unwrap().tag, Some(String::new()));
}

#[test]
fn first_bad_field_is_told() {
    assert_eq!(refusal(r#"{"tag": 7, "location": 0}"#).2, "missing_provider");
    assert_eq!(refusal(r#"{"provider": "both", "tag": 7, "location": 0}"#).2, "missing_keyword");
    assert_eq!(
        refusal(r#"{"provider": "both", "keyword": "k", "tag": 7, "location": 0}"#).2,
        "invalid_location"
    );
    assert_eq!(
        refusal(r#"{"provider": "both", "keyword": "k", "tag": 7, "location": 1, "language": ""}"#)
            .2,
        "invalid_language"
    );
    assert_eq!(
        refusal(
            r#"{"provider": "both", "keyword": "k", "tag": 7, "location": 1, "force_web_search": 0}"#
        )
        .2,
        "invalid_force_web_search"
    );
}

#[test]
fn valid_request_is_read_as_it_was_meant() {
    let body = json(
        r#"{"provider": "chatgpt", "keyword": "best coffee", "location": "Seattle",
            "language": "fr", "force_web_search": true, "tag": "t"}"#,
    );
    let request = validate_fields(&body).unwrap();
    assert_eq!(request.provider, Provider::ChatGpt);
    assert_eq!(request.keyword, "best coffee");
    assert!(matches!(request.location, Location::Name(ref name) if name == "Seattle"));
    assert_eq!(request.language, "fr");
    assert!(request.force_web_search);
    assert_eq!(request.tag, Some("t".to_string()));
    let copy = request.clone();
    assert_eq!(copy.keyword, request.keyword);
    assert_eq!(copy.tag, request.tag);
}

#[test]
fn unknown_fields_are_ignored() {
    let body = json(r#"{"provider": "Both", "keyword": " k ", "location": 1, "colour": [1.5]}"#);
    let request = validate_fields(&body).unwrap();
    assert_eq!(request.provider, Provider::Both);
    assert_eq!(request.keyword, "k");
}

fn body_refusal(body: Option<&str>) -> (u16, String, String) {
    let response = parse_and_validate_body(body, "req-9").unwrap_err();
    assert_eq!(
        response.headers,
        vec![
            ("Content-Type".to_string(), "application/json".to_string()),
            ("X-RustyLLM-Request-Id".to_string(), "req-9".to_string()),
        ]
    );
    let json = json(&response.body);
    assert_eq!(json["request_id"], "req-9");
    assert_eq!(json.as_object().unwrap().len(), 3);
    (
        response.status,
        json["error"].as_str().unwrap().to_string(),
        json["code"].as_str().unwrap().to_string(),
    )
}

#[test]
fn body_that_is_no_request_is_refused() {
    let told = |status: u16, error: &str, code: &str| (status, error.to_string(), code.to_string());
    assert_eq!(
        body_refusal(None),
        told(400, "Failed to read request body", "missing_body")
    );
    assert_eq!(
        body_refusal(Some("")),
        told(400, "Request body is empty", "missing_body")
    );
    for text in [" ", "{", "{'provider': 1}", "{} {}", "nul"] {
        assert_eq!(
            body_refusal(Some(text)),
            told(400, "Invalid JSON in request body", "invalid_json")
        );
    }
    assert_eq!(
        body_refusal(Some("{}")),
        told(400, "Missing required field: provider", "missing_provider")
    );
}

#[test]
fn body_that_is_a_request_is_read() {
    let body = r#" {"provider": "GEMINI", "keyword": "best\tcoffee", "location": 2840} "#;
    let request = parse_and_validate_body(Some(body), "req-9").unwrap();
    assert_eq!(request.provider, Provider::Gemini);
    assert_eq!(request.keyword, "best coffee");
    assert_eq!(request.language, "en");
    assert!(!request.force_web_search);
    assert_eq!(request.tag, None);
}
