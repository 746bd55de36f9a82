//! Errors, as the JSON that callers read.

use crate::json::{
    contents, depth_limit, empty_object, member, parsed, readable, reads_back, render, rendered,
    set_member, shallow, string, unsigned, Json,
};
use crate::response::{
    json_headers, json_headers_tell, make_json_headers, Response, ResponseView,
};
use crate::text::first_value;
use crate::truncation::{byte_len, truncate, truncated, truncated_fits};
use serde_json::Value;
use vstd::prelude::*;

verus! {

/// How many bytes of an upstream body an error passes on.
pub const BODY_LIMIT: usize = 4096;

/// The body of an error.
pub open spec fn error_json(error: Seq<char>, code: Seq<char>, request_id: Seq<char>) -> Json {
    Json::Object(
        map![
            "request_id"@ => Json::Str(request_id),
            "error"@ => Json::Str(error),
            "code"@ => Json::Str(code),
        ],
    )
}

/// The body of an error that comes from upstream: what upstream answered goes with
/// it, cut to `BODY_LIMIT` bytes.
pub open spec fn dfs_error_json(
    dfs_status: u16,
    dfs_body: Seq<char>,
    code: Seq<char>,
    request_id: Seq<char>,
) -> Json {
    Json::Object(
        map![
            "request_id"@ => Json::Str(request_id),
            "error"@ => Json::Str("DataForSEO returned non-success status"@),
            "code"@ => Json::Str(code),
            "dataforseo_status"@ => Json::Int(dfs_status as int),
            "dataforseo_body"@ => Json::Str(truncated(dfs_body, BODY_LIMIT as nat)),
        ],
    )
}

/// The response that carries a document under a status.
pub open spec fn json_response(status: u16, json: Json, request_id: Seq<char>) -> ResponseView {
    ResponseView { status, headers: json_headers(request_id), body: rendered(json) }
}

/// Whether `response` carries a document under a status, and reading its body gives
/// that document.
pub open spec fn carries(
    response: ResponseView,
    status: u16,
    json: Json,
    request_id: Seq<char>,
) -> bool {
    &&& response == json_response(status, json, request_id)
    &&& parsed(response.body) == Some(json)
}

/// Why a request is refused: the HTTP status, a message for people, and a code for
/// programs.
pub type Refusal = (u16, &'static str, &'static str);

/// What a refusal says.
pub type RefusalView = (u16, Seq<char>, Seq<char>);

/// What a refusal says.
pub open spec fn refusal_view(refusal: Refusal) -> RefusalView {
    (refusal.0, refusal.1@, refusal.2@)
}

/// Whether `response` answers a request with a refusal: status, message and code, and
/// the request's id in a header and in the body, which is JSON.
pub open spec fn tells(response: ResponseView, refusal: RefusalView, request_id: Seq<char>) -> bool {
    carries(response, refusal.0, error_json(refusal.1, refusal.2, request_id), request_id)
}

/// The members of errors have different names.
proof fn member_names_differ()
    ensures
        "code"@.len() == 4,
        "error"@.len() == 5,
        "request_id"@.len() == 10,
        "dataforseo_body"@.len() == 15,
        "dataforseo_status"@.len() == 17,
{
    reveal_strlit("code");
    reveal_strlit("error");
    reveal_strlit("request_id");
    reveal_strlit("dataforseo_body");
    reveal_strlit("dataforseo_status");
}

/// Every error names the request that it answers, in a header and in its body, which
/// says what is wrong, under a code, and nothing else.
pub proof fn errors_name_the_request(
    response: ResponseView,
    refusal: RefusalView,
    request_id: Seq<char>,
)
    requires
        tells(response, refusal, request_id),
    ensures
        response.status == refusal.0,
        first_value(response.headers, "X-RustyLLM-Request-Id"@) == Some(request_id),
        parsed(response.body) matches Some(body) && {
            &&& member(body, "request_id"@) == Json::Str(request_id)
            &&& member(body, "error"@) == Json::Str(refusal.1)
            &&& member(body, "code"@) == Json::Str(refusal.2)
            &&& member(body, "dataforseo_status"@) is Null
            &&& member(body, "dataforseo_body"@) is Null
            &&& body matches Json::Object(members)
            &&& forall|name: Seq<char>| #[trigger]
                members.contains_key(name) ==> name == "request_id"@ || name == "error"@ || name
                    == "code"@
        },
{
    member_names_differ();
    json_headers_tell(request_id);
}

/// An error that comes from upstream names the request that it answers, and brings the
/// status of upstream and what fits of the body of upstream.
pub proof fn upstream_errors_tell(
    response: ResponseView,
    status: u16,
    dfs_status: u16,
    dfs_body: Seq<char>,
    code: Seq<char>,
    request_id: Seq<char>,
)
    requires
        carries(response, status, dfs_error_json(dfs_status, dfs_body, code, request_id), request_id),
    ensures
        response.status == status,
        first_value(response.headers, "X-RustyLLM-Request-Id"@) == Some(request_id),
        parsed(response.body) matches Some(body) && {
            &&& member(body, "request_id"@) == Json::Str(request_id)
            &&& member(body, "error"@) == Json::Str("DataForSEO returned non-success status"@)
            &&& member(body, "code"@) == Json::Str(code)
            &&& member(body, "dataforseo_status"@) == Json::Int(dfs_status as int)
            &&& member(body, "dataforseo_body"@) == Json::Str(
                truncated(dfs_body, BODY_LIMIT as nat),
            )
            &&& byte_len(truncated(dfs_body, BODY_LIMIT as nat)) <= 4096
            &&& truncated(dfs_body, BODY_LIMIT as nat) == truncated(dfs_body, 4096)
            &&& body matches Json::Object(members)
            &&& forall|name: Seq<char>| #[trigger]
                members.contains_key(name) ==> name == "request_id"@ || name == "error"@ || name
                    == "code"@ || name == "dataforseo_status"@ || name == "dataforseo_body"@
        },
{
    member_names_differ();
    json_headers_tell(request_id);
    truncated_fits(dfs_body, BODY_LIMIT as nat);
}

/// Makes the body of an error.
pub fn build_error_json(error: &str, code: &str, request_id: &str) -> (value: Value)
    ensures
        contents(value) == error_json(error@, code@, request_id@),
{
    let mut value = empty_object();
    set_member(&mut value, "request_id", string(request_id));
    set_member(&mut value, "error", string(error));
    set_member(&mut value, "code", string(code));
    value
}

/// Makes the body of an error that comes from upstream.
pub fn build_dfs_error_json(dfs_status: u16, dfs_body: &str, code: &str, request_id: &str) -> (value:
    Value)
    ensures
        contents(value) == dfs_error_json(dfs_status, dfs_body@, code@, request_id@),
{
    let mut value = empty_object();
    set_member(&mut value, "request_id", string(request_id));
    set_member(&mut value, "error", string("DataForSEO returned non-success status"));
    set_member(&mut value, "code", string(code));
    set_member(&mut value, "dataforseo_status", unsigned(dfs_status as u64));
    set_member(&mut value, "dataforseo_body", string(truncate(dfs_body, BODY_LIMIT)));
    value
}

/// Answers with a document under a status.
pub(crate) fn respond(status: u16, value: &Value, request_id: &str) -> (response: Response)
    ensures
        response@ == json_response(status, contents(*value), request_id@),
        readable(contents(*value), depth_limit()) ==> reads_back(
            response.body@,
            contents(*value),
        ),
        shallow(contents(*value), depth_limit()) ==> parsed(response.body@) == Some(
            contents(*value),
        ),
{
    Response { status, headers: make_json_headers(request_id), body: render(value) }
}

/// Answers with an error.
pub fn json_error(status: u16, error: &str, code: &str, request_id: &str) -> (response: Response)
    ensures
        tells(response@, (status, error@, code@), request_id@),
{
    let value = build_error_json(error, code, request_id);
    assert(shallow(contents(value), depth_limit())) by {
        reveal_with_fuel(shallow, 2);
    }
    respond(status, &value, request_id)
}

/// Answers that upstream failed.
pub fn dataforseo_error(dfs_status: u16, dfs_body: &str, code: &str, request_id: &str) -> (response:
    Response)
    ensures
        carries(
            response@,
            502,
            dfs_error_json(dfs_status, dfs_body@, code@, request_id@),
            request_id@,
        ),
{
    let value = build_dfs_error_json(dfs_status, dfs_body, code, request_id);
    assert(shallow(contents(value), depth_limit())) by {
        reveal_with_fuel(shallow, 2);
    }
    respond(502, &value, request_id)
}

} // verus!
