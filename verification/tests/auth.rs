use rusty_llm::auth::{check_key, constant_time_eq, given_key, read_secret, validate_auth};
use rusty_llm::response::Response;
use serde_json::Value;
use worker::Url;

#[test]
fn constant_time_eq_same() {
    assert!(constant_time_eq(b"secret", b"secret"));
}

#[test]
fn constant_time_eq_different_content() {
    assert!(!constant_time_eq(b"secret", b"secre!"));
}

#[test]
fn constant_time_eq_different_length() {
    assert!(!constant_time_eq(b"secret", b"sec"));
}

#[test]
fn constant_time_eq_empty_both() {
    assert!(constant_time_eq(b"", b""));
}

#[test]
fn constant_time_eq_one_empty() {
    assert!(!constant_time_eq(b"secret", b""));
}

#[test]
fn constant_time_eq_finds_every_difference() {
    let bytes: Vec<u8> = (0..=255).collect();
    for i in 0..bytes.len() {
        for bit in 0..8 {
            let mut other = bytes.clone();
            other[i] ^= 1 << bit;
            assert!(!constant_time_eq(&bytes, &other));
        }
    }
    assert!(constant_time_eq(&bytes, &bytes.clone()));
}

fn told(response: &Response) -> (u16, String, String) {
    let body: Value = serde_json::from_str(&response.body).unwrap();
    assert_eq!(body["request_id"], "req-1");
    assert_eq!(
        response.headers[1],
        ("X-RustyLLM-Request-Id".to_string(), "req-1".to_string())
    );
    (
        response.status,
        body["error"].as_str().unwrap().to_string(),
        body["code"].as_str().unwrap().to_string(),
    )
}

fn validate(url: &str, secret: Option<&str>) -> Result<(), (u16, String, String)> {
    let url = Url::parse(url).unwrap();
    match validate_auth(&url, secret.map(str::to_string), "req-1") {
        Ok(()) => Ok(()),
        Err(response) => Err(told(&response)),
    }
}

fn refused(status: u16, error: &str, code: &str) -> Result<(), (u16, String, String)> {
    Err((status, error.to_string(), code.to_string()))
}

#[test]
fn key_is_compared_with_the_secret() {
    let unauthorized = refused(401, "Invalid authentication credentials", "unauthorized");
    assert_eq!(validate("https://h/v1/llm?csvkey=secret", Some("secret")), Ok(()));
    assert_eq!(validate("https://h/v1/llm?csvkey=Secret", Some("secret")), unauthorized);
    assert_eq!(validate("https://h/v1/llm?csvkey=", Some("secret")), unauthorized);
    assert_eq!(validate("https://h/v1/llm?csvkey=secret%20", Some("secret")), unauthorized);
    assert_eq!(validate("https://h/v1/llm?csvkey=", Some("")), Ok(()));
}

#[test]
fn key_is_decoded() {
    assert_eq!(validate("https://h/v1/llm?csvkey=a%20b+c%26%C3%A9", Some("a b c&é")), Ok(()));
    assert_eq!(validate("https://h/v1/llm?x=1&csv%6Bey=k#csvkey=z", Some("k")), Ok(()));
}

#[test]
fn only_the_first_key_counts() {
    assert_eq!(validate("https://h/v1/llm?csvkey=k&csvkey=z", Some("k")), Ok(()));
    assert_eq!(
        validate("https://h/v1/llm?csvkey=z&csvkey=k", Some("k")).unwrap_err().0,
        401
    );
}

#[test]
fn missing_key_is_refused() {
    let missing = refused(400, "Missing required query parameter: csvkey", "missing_csvkey");
    assert_eq!(validate("https://h/v1/llm", Some("k")), missing);
    assert_eq!(validate("https://h/v1/llm?CSVKEY=k&csvkey2=k", Some("k")), missing);
    assert_eq!(validate("https://h/v1/llm?key=csvkey", None), missing);
}

#[test]
fn missing_secret_is_told() {
    let config = refused(500, "Server configuration error: missing CSVKEY", "missing_config");
    assert_eq!(validate("https://h/v1/llm?csvkey=k", None), config);
    let response = check_key(Some("k"), None, "req-1").unwrap_err();
    assert_eq!(Err(told(&response)), config);
    assert!(check_key(Some("k"), Some("k".to_string()), "req-1").is_ok());
    let response = read_secret(None, "DATAFORSEO_LOGIN", "req-1").unwrap_err();
    assert_eq!(
        told(&response).1,
        "Server configuration error: missing DATAFORSEO_LOGIN"
    );
    assert_eq!(
        read_secret(Some("s".to_string()), "CSVKEY", "req-1").unwrap(),
        "s"
    );
}

#[test]
fn key_is_looked_up_in_the_query() {
    let key = |url: &str| given_key(&Url::parse(url).unwrap());
    assert_eq!(key("https://h/v1/llm?a=b&csvkey=x%2By&csvkey=z"), Some("x+y".to_string()));
    assert_eq!(key("https://h/v1/llm?csvkey"), Some(String::new()));
    assert_eq!(key("https://h/v1/llm#csvkey=x"), None);
}
