use rusty_llm::exchange::{
    fetch_both, fetch_llm, fetch_single_for_both, join_outcomes, Attempt, Exchange, FetchFailure,
    FetchResult, NextStep, SendOutcome,
};
use rusty_llm::providers::{Provider, CHATGPT_URL, GEMINI_URL};
use rusty_llm::validation::{LlmRequest, Location};
use serde_json::Value;

fn request(provider: Provider) -> LlmRequest {
    LlmRequest {
        provider,
        keyword: "coffee".to_string(),
        location: Location::Code(2840),
        language: "en".to_string(),
        force_web_search: provider != Provider::Gemini,
        tag: None,
    }
}

fn begin() -> Exchange {
    fetch_llm(&request(Provider::Gemini), "user", "pass", "req-1")
}

fn answered(status: u16) -> SendOutcome {
    SendOutcome::Answered { status }
}

fn failed(message: &str) -> SendOutcome {
    SendOutcome::Failed {
        message: message.to_string(),
    }
}

fn stopped(step: NextStep) -> FetchFailure {
    match step {
        NextStep::Stop(failure) => failure,
        other => panic!("{other:?}"),
    }
}

fn json(text: &str) -> Value {
    serde_json::from_str(text).unwrap()
}

#[test]
fn single_call_asks_one_provider() {
    let exchange = begin();
    assert_eq!(exchange.attempt, Attempt::First);
    assert_eq!(exchange.request_id, "req-1");
    assert_eq!(exchange.call.url, GEMINI_URL);
    assert_eq!(
        exchange.call.headers,
        vec![
            ("Content-Type".to_string(), "application/json".to_string()),
            ("Authorization".to_string(), "Basic dXNlcjpwYXNz".to_string()),
        ]
    );
    assert_eq!(
        exchange.call.body,
        r#"[{"keyword":"coffee","language_code":"en","location_code":2840,"tag":"req-1"}]"#
    );
}

#[test]
fn dual_calls_ask_both_providers_the_same() {
    let (gemini, chatgpt) = fetch_both(&request(Provider::Both), "user", "pass", "req-1");
    assert_eq!(gemini.call.url, GEMINI_URL);
    assert_eq!(chatgpt.call.url, CHATGPT_URL);
    assert_eq!(gemini.call.headers, chatgpt.call.headers);
    let gemini = json(&gemini.call.body);
    let mut chatgpt = json(&chatgpt.call.body);
    assert!(gemini[0].get("force_web_search").is_none());
    assert_eq!(chatgpt[0]["force_web_search"], true);
    chatgpt[0].as_object_mut().unwrap().remove("force_web_search");
    assert_eq!(gemini, chatgpt);
}

#[test]
fn transient_status_is_retried_once() {
    for status in [429, 503] {
        let mut exchange = begin();
        let body = exchange.call.body.clone();
        let step = exchange.after_send(answered(status));
        assert!(matches!(step, NextStep::Retry { delay_ms: 1000 }));
        assert!(exchange.is_retry());
        assert_eq!(exchange.call.body, body);
        let step = exchange.after_send(answered(status));
        assert!(matches!(step, NextStep::ReadBody { status: read } if read == status));
        let failure = exchange.after_body(status, "busy".to_string()).unwrap_err();
        assert!(failure.retried);
        assert_eq!(json(&failure.response.body)["dataforseo_status"], status);
    }
}

#[test]
fn other_statuses_are_not_retried() {
    for status in (0..600).chain([65535]) {
        if status != 429 && status != 503 {
            let mut exchange = begin();
            let step = exchange.after_send(answered(status));
            assert!(matches!(step, NextStep::ReadBody { status: read } if read == status));
            assert!(!exchange.is_retry());
            match exchange.after_body(status, "text".to_string()) {
                Ok(success) => {
                    assert!((200..300).contains(&status));
                    assert_eq!(success.body, "text");
                    assert!(!success.retried);
                }
                Err(failure) => {
                    assert!(!(200..300).contains(&status));
                    assert!(!failure.retried);
                    assert_eq!(failure.response.status, 502);
                    let body = json(&failure.response.body);
                    assert_eq!(body["code"], "dataforseo_error");
                    assert_eq!(body["dataforseo_status"], status);
                    assert_eq!(body["dataforseo_body"], "text");
                    assert_eq!(body["request_id"], "req-1");
                }
            }
        }
    }
}

#[test]
fn second_attempt_can_succeed() {
    let mut exchange = begin();
    exchange.after_send(answered(503));
    assert!(matches!(
        exchange.after_send(answered(200)),
        NextStep::ReadBody { status: 200 }
    ));
    let success = exchange.after_body(200, "{}".to_string()).unwrap();
    assert_eq!(success.body, "{}");
    assert!(success.retried);
}

#[test]
fn timeouts_are_told() {
    for message in ["request timeout", "Timeout!", "aborted", "xabortx"] {
        let failure = stopped(begin().after_send(failed(message)));
        assert!(!failure.retried);
        assert_eq!(failure.response.status, 504);
        assert_eq!(
            failure.response.body,
            r#"{"code":"dataforseo_timeout","error":"DataForSEO request timed out","request_id":"req-1"}"#
        );
        let mut exchange = begin();
        exchange.after_send(answered(429));
        let failure = stopped(exchange.after_send(failed(message)));
        assert!(failure.retried);
        assert_eq!(failure.response.status, 504);
        assert_eq!(
            json(&failure.response.body)["error"],
            "DataForSEO request timed out after retry"
        );
    }
}

#[test]
fn upstream_has_two_minutes() {
    assert_eq!(begin().call.timeout_ms(), 120000);
    let failure = stopped(begin().after_send(SendOutcome::TimedOut));
    assert!(!failure.retried);
    assert_eq!(failure.response.status, 504);
    let body = json(&failure.response.body);
    assert_eq!(body["error"], "DataForSEO request timed out");
    assert_eq!(body["code"], "dataforseo_timeout");
    assert!(body.get("dataforseo_status").is_none());
    let mut exchange = begin();
    exchange.after_send(answered(503));
    let failure = stopped(exchange.after_send(SendOutcome::TimedOut));
    assert!(failure.retried);
    assert_eq!(failure.response.status, 504);
    assert_eq!(
        json(&failure.response.body)["error"],
        "DataForSEO request timed out after retry"
    );
    let failure = begin().timed_out();
    assert!(!failure.retried);
    assert_eq!(failure.response.status, 504);
}

#[test]
fn body_that_cannot_be_read_counts_as_empty() {
    let success = begin().after_read(200, None, false).unwrap();
    assert_eq!(success.body, "");
    assert!(!success.retried);
    let failure = begin().after_read(500, None, false).unwrap_err();
    assert_eq!(failure.response.status, 502);
    assert_eq!(json(&failure.response.body)["dataforseo_body"], "");
}

#[test]
fn body_that_comes_too_late_is_a_timeout() {
    for status in [200, 500] {
        let failure = begin().after_read(status, None, true).unwrap_err();
        assert_eq!(failure.response.status, 504);
        assert_eq!(json(&failure.response.body)["code"], "dataforseo_timeout");
        assert!(!failure.retried);
    }
    let mut exchange = begin();
    exchange.after_send(answered(429));
    let failure = exchange.after_read(200, None, true).unwrap_err();
    assert!(failure.retried);
}

#[test]
fn body_that_was_read_is_kept() {
    for aborted in [false, true] {
        let read = Some("text".to_string());
        let success = begin().after_read(200, read, aborted).unwrap();
        assert_eq!(success.body, "text");
        let read = Some("text".to_string());
        let failure = begin().after_read(404, read, aborted).unwrap_err();
        assert_eq!(json(&failure.response.body)["dataforseo_body"], "text");
    }
}

#[test]
fn envelope_with_floats_is_read_again() {
    let answer = r#"{"cost":0.3,"tasks":[{"score":11.157180677781069,"result":[{"model":"m"}]}]}"#;
    let outcome = |retried: bool| {
        fetch_single_for_both(
            Ok(FetchResult {
                body: answer.to_string(),
                retried,
            }),
            1,
        )
    };
    let (response, _) = join_outcomes(outcome(false), outcome(true), "req-1", 3);
    let body = json(&response.body);
    for name in ["gemini", "chatgpt"] {
        let part = &body[name]["response"];
        assert_eq!(part["tasks"][0]["result"][0]["model"], "m");
        assert!(part["cost"].is_f64());
        let score = part["tasks"][0]["score"].as_f64().unwrap();
        assert!((score - 11.157180677781069).abs() < 1e-12);
    }
}

#[test]
fn other_failures_are_told() {
    for message in ["", "TIMEOUT", "Abort", "tim eout", "network connection lost", "timeou"] {
        let failure = stopped(begin().after_send(failed(message)));
        assert!(!failure.retried);
        assert_eq!(failure.response.status, 502);
        let body = json(&failure.response.body);
        assert_eq!(body["code"], "dataforseo_error");
        assert_eq!(body["dataforseo_status"], 0);
        assert_eq!(body["dataforseo_body"], message);
    }
}

#[test]
fn outcome_of_a_success() {
    let body = r#"{"cost":0.3,"tasks":[{"cost":0.1,"result":[{"model":"m"}]}]}"#;
    let outcome = fetch_single_for_both(
        Ok(FetchResult {
            body: body.to_string(),
            retried: true,
        }),
        17,
    );
    assert_eq!(outcome.status, "ok");
    assert_eq!(outcome.duration_ms, 17);
    assert_eq!(outcome.model, Some("m".to_string()));
    assert_eq!(outcome.dfs_cost_cents, Some(30));
    assert_eq!(outcome.response_body, Some(json(body)));
    assert_eq!(outcome.error, None);
    assert_eq!(outcome.code, None);
    assert_eq!(outcome.dataforseo_status, None);
    assert_eq!(outcome.dataforseo_body, None);
    assert!(outcome.retried);
}

#[test]
fn outcome_of_an_answer_that_is_not_json() {
    let outcome = fetch_single_for_both(
        Ok(FetchResult {
            body: "<html>".to_string(),
            retried: false,
        }),
        1,
    );
    assert_eq!(outcome.status, "ok");
    assert_eq!(outcome.response_body, Some(Value::Null));
    assert_eq!(outcome.model, None);
    assert_eq!(outcome.dfs_cost_cents, None);
}

#[test]
fn outcome_of_a_refused_call() {
    let mut exchange = begin();
    exchange.after_send(answered(503));
    exchange.after_send(answered(500));
    let failure = exchange.after_body(500, "x".repeat(5000)).unwrap_err();
    let outcome = fetch_single_for_both(Err(failure), 9);
    assert_eq!(outcome.status, "error");
    assert_eq!(outcome.duration_ms, 9);
    assert_eq!(
        outcome.error,
        Some("DataForSEO returned non-success status".to_string())
    );
    assert_eq!(outcome.code, Some("dataforseo_error".to_string()));
    assert_eq!(outcome.dataforseo_status, Some(500));
    assert_eq!(outcome.dataforseo_body, Some("x".repeat(4096)));
    assert_eq!(outcome.model, None);
    assert_eq!(outcome.response_body, None);
    assert!(outcome.retried);
}

#[test]
fn outcome_of_a_timeout() {
    let failure = stopped(begin().after_send(failed("timeout")));
    let outcome = fetch_single_for_both(Err(failure), 9);
    assert_eq!(outcome.status, "error");
    assert_eq!(outcome.error, Some("DataForSEO request timed out".to_string()));
    assert_eq!(outcome.code, Some("dataforseo_timeout".to_string()));
    assert_eq!(outcome.dataforseo_status, None);
    assert_eq!(outcome.dataforseo_body, None);
    assert!(!outcome.retried);
}

fn success(retried: bool) -> Result<FetchResult, FetchFailure> {
    Ok(FetchResult {
        body: r#"{"tasks":[]}"#.to_string(),
        retried,
    })
}

fn failure() -> Result<FetchResult, FetchFailure> {
    Err(begin().after_body(500, "broken".to_string()).unwrap_err())
}

#[test]
fn joined_outcomes_are_answered_together() {
    for (gemini, chatgpt, status, retried) in [
        (success(false), success(true), 200, true),
        (success(true), failure(), 207, true),
        (failure(), success(false), 207, false),
        (failure(), failure(), 502, false),
    ] {
        let gemini_ok = gemini.is_ok();
        let chatgpt_ok = chatgpt.is_ok();
        let (response, either) = join_outcomes(
            fetch_single_for_both(gemini, 1),
            fetch_single_for_both(chatgpt, 2),
            "req-1",
            3,
        );
        assert_eq!(response.status, status);
        assert_eq!(either, retried);
        assert_eq!(
            response.headers,
            vec![
                ("Content-Type".to_string(), "application/json".to_string()),
                ("X-RustyLLM-Request-Id".to_string(), "req-1".to_string()),
            ]
        );
        let body = json(&response.body);
        assert_eq!(body["request_id"], "req-1");
        assert_eq!(body["provider"], "both");
        assert_eq!(body["duration_ms"], 3);
        for (name, ok) in [("gemini", gemini_ok), ("chatgpt", chatgpt_ok)] {
            assert_eq!(body[name]["status"], if ok { "ok" } else { "error" });
            assert_eq!(body[name].get("response").is_some(), ok);
            assert_eq!(body[name].get("dataforseo_body").is_some(), !ok);
        }
    }
}
