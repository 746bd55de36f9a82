use rusty_llm::intake::{Dispatch, Intake, IntakeAction, Plan, Wanted};
use rusty_llm::providers::{CHATGPT_URL, GEMINI_URL};
use serde_json::Value;
use worker::Url;

fn json(text: &str) -> Value {
    serde_json::from_str(text).unwrap()
}

fn body(provider: &str) -> String {
    format!(r#"{{"provider": "{provider}", "keyword": " caf\u00e9 ", "location": 2840}}"#)
}

struct World<'a> {
    url: Option<&'a str>,
    csvkey: Option<&'a str>,
    body: Option<String>,
    login: Option<&'a str>,
    password: Option<&'a str>,
}

fn world(provider: &str) -> World<'static> {
    World {
        url: Some("https://h/v1/llm?csvkey=k"),
        csvkey: Some("k"),
        body: Some(body(provider)),
        login: Some("user"),
        password: Some("pass"),
    }
}

struct Refused {
    status: u16,
    error: String,
    code: String,
}

/// Takes a request in, and tells what was read on the way.
fn take_in(world: World) -> (Result<Plan, Refused>, Vec<&'static str>) {
    let url = world.url.map(|url| Url::parse(url).unwrap());
    let mut read = Vec::new();
    let mut action = Intake::begin(url.as_ref(), "req-1");
    loop {
        let intake = match action {
            IntakeAction::Answer(response) => {
                assert_eq!(
                    response.headers[1],
                    ("X-RustyLLM-Request-Id".to_string(), "req-1".to_string())
                );
                let body = json(&response.body);
                assert_eq!(body["request_id"], "req-1");
                let refused = Refused {
                    status: response.status,
                    error: body["error"].as_str().unwrap().to_string(),
                    code: body["code"].as_str().unwrap().to_string(),
                };
                return (Err(refused), read);
            }
            IntakeAction::Send(plan) => return (Ok(plan), read),
            IntakeAction::Read(intake) => intake,
        };
        let text = match intake.wanted() {
            Wanted::Body => {
                read.push("body");
                world.body.clone()
            }
            Wanted::Secret(name) => {
                read.push(name);
                let secret = match name {
                    "CSVKEY" => world.csvkey,
                    "DATAFORSEO_LOGIN" => world.login,
                    "DATAFORSEO_PASSWORD" => world.password,
                    other => panic!("{other}"),
                };
                secret.map(str::to_string)
            }
        };
        action = intake.next(text);
    }
}

fn refused(world: World) -> (u16, String, String, Vec<&'static str>) {
    match take_in(world) {
        (Err(refused), read) => (refused.status, refused.error, refused.code, read),
        (Ok(plan), _) => panic!("{plan:?}"),
    }
}

fn told(
    status: u16,
    error: &str,
    code: &str,
    read: &[&'static str],
) -> (u16, String, String, Vec<&'static str>) {
    (status, error.to_string(), code.to_string(), read.to_vec())
}

#[test]
fn everything_is_read_in_order() {
    let (plan, read) = take_in(world("gemini"));
    assert!(plan.is_ok());
    assert_eq!(
        read,
        vec!["CSVKEY", "body", "DATAFORSEO_LOGIN", "DATAFORSEO_PASSWORD"]
    );
}

#[test]
fn url_is_checked_before_anything_is_read() {
    assert_eq!(
        refused(World { url: None, ..world("gemini") }),
        told(500, "Failed to parse URL", "internal_error", &[])
    );
    assert_eq!(
        refused(World {
            url: Some("https://h/v1/llm?key=k"),
            csvkey: None,
            body: None,
            login: None,
            password: None,
        }),
        told(400, "Missing required query parameter: csvkey", "missing_csvkey", &[])
    );
}

#[test]
fn key_is_checked_before_the_body_is_read() {
    assert_eq!(
        refused(World { csvkey: None, body: None, ..world("gemini") }),
        told(
            500,
            "Server configuration error: missing CSVKEY",
            "missing_config",
            &["CSVKEY"]
        )
    );
    assert_eq!(
        refused(World { csvkey: Some("z"), body: None, ..world("gemini") }),
        told(
            401,
            "Invalid authentication credentials",
            "unauthorized",
            &["CSVKEY"]
        )
    );
}

#[test]
fn body_is_checked_before_secrets_are_read() {
    let refused_body = |body: Option<&str>| {
        refused(World {
            body: body.map(str::to_string),
            login: None,
            password: None,
            ..world("gemini")
        })
    };
    let read = ["CSVKEY", "body"];
    assert_eq!(
        refused_body(None),
        told(400, "Failed to read request body", "missing_body", &read)
    );
    assert_eq!(
        refused_body(Some("")),
        told(400, "Request body is empty", "missing_body", &read)
    );
    assert_eq!(
        refused_body(Some("{")),
        told(400, "Invalid JSON in request body", "invalid_json", &read)
    );
    assert_eq!(
        refused_body(Some("{}")),
        told(400, "Missing required field: provider", "missing_provider", &read)
    );
}

#[test]
fn missing_secrets_are_told() {
    assert_eq!(
        refused(World { login: None, password: None, ..world("both") }),
        told(
            500,
            "Server configuration error: missing DATAFORSEO_LOGIN",
            "missing_config",
            &["CSVKEY", "body", "DATAFORSEO_LOGIN"]
        )
    );
    assert_eq!(
        refused(World { password: None, ..world("both") }),
        told(
            500,
            "Server configuration error: missing DATAFORSEO_PASSWORD",
            "missing_config",
            &["CSVKEY", "body", "DATAFORSEO_LOGIN", "DATAFORSEO_PASSWORD"]
        )
    );
}

#[test]
fn request_to_one_provider_is_sent() {
    for (name, url) in [("gemini", GEMINI_URL), ("ChatGPT", CHATGPT_URL)] {
        let plan = match take_in(world(name)).0 {
            Ok(plan) => plan,
            Err(refused) => panic!("{}", refused.error),
        };
        assert_eq!(plan.request.keyword, "café");
        match plan.dispatch {
            Dispatch::Single(exchange) => {
                assert_eq!(exchange.call.url, url);
                assert_eq!(exchange.call.headers[1].1, "Basic dXNlcjpwYXNz");
                assert_eq!(json(&exchange.call.body)[0]["keyword"], "café");
                assert_eq!(json(&exchange.call.body)[0]["tag"], "req-1");
                assert_eq!(exchange.request_id, "req-1");
            }
            other => panic!("{other:?}"),
        }
    }
}

#[test]
fn request_to_both_providers_is_sent() {
    let plan = match take_in(world("both")).0 {
        Ok(plan) => plan,
        Err(refused) => panic!("{}", refused.error),
    };
    match plan.dispatch {
        Dispatch::Dual(gemini, chatgpt) => {
            assert_eq!(gemini.call.url, GEMINI_URL);
            assert_eq!(chatgpt.call.url, CHATGPT_URL);
            assert_eq!(gemini.call.body, chatgpt.call.body);
        }
        other => panic!("{other:?}"),
    }
}
