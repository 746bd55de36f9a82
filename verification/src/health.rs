//! The health check.

use crate::json::{
    array, boolean, contents, depth_limit, empty_object, member, parsed, render, rendered, set_member,
    shallow, string, Json,
};
use crate::providers::Provider;
use crate::response::{
    header_names_differ, header_views, push_header, Response, ResponseView,
};
use crate::text::{decimal, decimal_text, first_value};
use crate::truncation::byte_len;
use serde_json::Value;
use vstd::prelude::*;

verus! {

/// What the health check says: the version, the providers, and whether every secret
/// that requests need is there.
pub open spec fn health_json(version: Seq<char>, secrets_ok: bool) -> Json {
    Json::Object(
        map![
            "status"@ => Json::Str("ok"@),
            "version"@ => Json::Str(version),
            "providers"@ => Json::Array(
                seq![Json::Str("gemini"@), Json::Str("chatgpt"@), Json::Str("both"@)],
            ),
            "secrets_configured"@ => Json::Bool(secrets_ok),
        ],
    )
}

/// Makes the body of the health check.
pub fn build_health_body(version: &str, secrets_ok: bool) -> (value: Value)
    ensures
        contents(value) == health_json(version@, secrets_ok),
{
    let mut names: Vec<Value> = Vec::new();
    names.push(string("gemini"));
    names.push(string("chatgpt"));
    names.push(string("both"));
    let providers = array(names);
    assert(contents(providers)->Array_0 =~= seq![
        Json::Str("gemini"@),
        Json::Str("chatgpt"@),
        Json::Str("both"@),
    ]);
    let mut value = empty_object();
    set_member(&mut value, "status", string("ok"));
    set_member(&mut value, "version", string(version));
    set_member(&mut value, "providers", providers);
    set_member(&mut value, "secrets_configured", boolean(secrets_ok));
    value
}

/// The health check says that the service is up, which version it is, which providers
/// there are, and whether the secrets are there.
pub proof fn health_tells(version: Seq<char>, secrets_ok: bool)
    ensures
        member(health_json(version, secrets_ok), "status"@) == Json::Str("ok"@),
        member(health_json(version, secrets_ok), "version"@) == Json::Str(version),
        member(health_json(version, secrets_ok), "secrets_configured"@) == Json::Bool(secrets_ok),
        member(health_json(version, secrets_ok), "providers"@) matches Json::Array(names)
            && names.len() == 3 && names[0] == Json::Str(Provider::Gemini.name_text()) && names[1]
            == Json::Str(Provider::ChatGpt.name_text()) && names[2] == Json::Str(
            Provider::Both.name_text(),
        ),
{
    reveal_strlit("status");
    reveal_strlit("version");
    reveal_strlit("providers");
    reveal_strlit("secrets_configured");
    assert("status"@.len() == 6);
    assert("version"@.len() == 7);
    assert("providers"@.len() == 9);
    assert("secrets_configured"@.len() == 18);
}

/// The answer to the health check.
pub open spec fn health_response(version: Seq<char>, secrets_ok: bool) -> ResponseView {
    ResponseView {
        status: 200,
        headers: seq![("Content-Type"@, "application/json"@)],
        body: rendered(health_json(version, secrets_ok)),
    }
}

/// The answer to the health check without its body.
pub open spec fn health_head_response(version: Seq<char>, secrets_ok: bool) -> ResponseView {
    ResponseView {
        status: 200,
        headers: seq![
            ("Content-Type"@, "application/json"@),
            (
                "Content-Length"@,
                decimal_text(byte_len(rendered(health_json(version, secrets_ok)))),
            ),
        ],
        body: seq![],
    }
}

/// The health check without a body is answered under the status and the type of the
/// health check, and says how many bytes the body has that it leaves out.
pub proof fn head_is_like_get(version: Seq<char>, secrets_ok: bool)
    ensures
        ({
            let get = health_response(version, secrets_ok);
            let head = health_head_response(version, secrets_ok);
            &&& head.status == get.status
            &&& head.body.len() == 0
            &&& first_value(head.headers, "Content-Type"@) == first_value(
                get.headers,
                "Content-Type"@,
            )
            &&& first_value(head.headers, "Content-Length"@) == Some(
                decimal_text(byte_len(get.body)),
            )
        }),
{
    header_names_differ();
    reveal_with_fuel(first_value, 3);
}

/// Answers the health check, given which of the secrets are there.
pub fn handle_health(version: &str, csvkey: bool, login: bool, password: bool) -> (response: Response)
    ensures
        response@ == health_response(version@, csvkey && login && password),
        parsed(response.body@) == Some(health_json(version@, csvkey && login && password)),
{
    let body = build_health_body(version, csvkey && login && password);
    assert(shallow(contents(body), depth_limit())) by {
        reveal_with_fuel(shallow, 3);
    }
    let mut headers: Vec<(String, String)> = Vec::new();
    push_header(&mut headers, "Content-Type", "application/json");
    assert(header_views(headers@) =~= seq![("Content-Type"@, "application/json"@)]);
    Response { status: 200, headers, body: render(&body) }
}

/// Answers the health check without a body, under the length that the body has.
pub fn handle_health_head(version: &str, csvkey: bool, login: bool, password: bool) -> (response:
    Response)
    ensures
        response@ == health_head_response(version@, csvkey && login && password),
{
    let body = build_health_body(version, csvkey && login && password);
    let text = render(&body);
    let length = text.as_str().as_bytes().len();
    let mut headers: Vec<(String, String)> = Vec::new();
    push_header(&mut headers, "Content-Type", "application/json");
    push_header(&mut headers, "Content-Length", decimal(length as u64).as_str());
    assert(header_views(headers@) =~= seq![
        ("Content-Type"@, "application/json"@),
        ("Content-Length"@, decimal_text(length as nat)),
    ]);
    Response { status: 200, headers, body: String::new() }
}

} // verus!
