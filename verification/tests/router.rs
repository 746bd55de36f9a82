use rusty_llm::response::Response;
use rusty_llm::router::{route, Method, Route};
use serde_json::Value;

fn refusal(method: Method, path: &str) -> Response {
    match route(method, path) {
        Route::Refused(response) => response,
        other => panic!("{other:?}"),
    }
}

#[test]
fn routes_of_the_table() {
    assert!(matches!(route(Method::Get, "/v1/health"), Route::Health));
    assert!(matches!(route(Method::Head, "/v1/health"), Route::HealthHead));
    assert!(matches!(route(Method::Post, "/v1/llm"), Route::Llm));
}

#[test]
fn other_methods_are_not_allowed() {
    for (method, path) in [
        (Method::Post, "/v1/health"),
        (Method::Other, "/v1/health"),
        (Method::Get, "/v1/llm"),
        (Method::Head, "/v1/llm"),
        (Method::Other, "/v1/llm"),
    ] {
        let response = refusal(method, path);
        assert_eq!(response.status, 405);
        let body: Value = serde_json::from_str(&response.body).unwrap();
        assert_eq!(body["error"], "Method not allowed");
        assert_eq!(body["code"], "method_not_allowed");
        assert_eq!(body["request_id"], "");
    }
}

#[test]
fn other_paths_are_not_found() {
    for method in [Method::Get, Method::Head, Method::Post, Method::Other] {
        for path in ["", "/", "/v1/llm/", "/V1/llm", "/v1/healthz", "v1/health"] {
            let response = refusal(method, path);
            assert_eq!(response.status, 404);
            let body: Value = serde_json::from_str(&response.body).unwrap();
            assert_eq!(body["error"], "Not found");
            assert_eq!(body["code"], "not_found");
            assert_eq!(body["request_id"], "");
        }
    }
}
