//! What is sent to DataForSEO, and how two providers' outcomes are put together.

use crate::encoding::{base64_bytes, base64_is_decoded, base64_text, encode_base64};
use crate::json::{
    alike, array, boolean, contents, depth_limit, empty_object, member, parsed, readable, render,
    rendered, set_member, shallow, signed, string, unsigned, with_optional, Json,
};
use crate::text::{optional_text, same};
use crate::validation::{field, LlmRequest, LlmRequestView, Location, LocationView};
use serde_json::Value;
use vstd::prelude::*;
use vstd::string::StringExecFns;
use vstd::utf8::{decode_utf8, encode_utf8, encode_utf8_decode_utf8};

verus! {

/// What one provider made of a request to both.
#[derive(Debug)]
pub struct ProviderOutcome {
    pub status: &'static str,
    pub duration_ms: u64,
    pub model: Option<String>,
    pub dfs_cost_cents: Option<u64>,
    pub response_body: Option<Value>,
    pub error: Option<String>,
    pub code: Option<String>,
    pub dataforseo_status: Option<u16>,
    pub dataforseo_body: Option<String>,
    pub retried: bool,
}

/// What an outcome says.
pub struct OutcomeView {
    pub status: Seq<char>,
    pub duration_ms: u64,
    pub model: Option<Seq<char>>,
    pub dfs_cost_cents: Option<u64>,
    pub response_body: Option<Json>,
    pub error: Option<Seq<char>>,
    pub code: Option<Seq<char>>,
    pub dataforseo_status: Option<u16>,
    pub dataforseo_body: Option<Seq<char>>,
    pub retried: bool,
}

/// What an optional document holds.
pub open spec fn optional_contents(value: Option<Value>) -> Option<Json> {
    match value {
        Some(value) => Some(contents(value)),
        None => None,
    }
}

impl View for ProviderOutcome {
    type V = OutcomeView;

    open spec fn view(&self) -> OutcomeView {
        OutcomeView {
            status: self.status@,
            duration_ms: self.duration_ms,
            model: optional_text(self.model),
            dfs_cost_cents: self.dfs_cost_cents,
            response_body: optional_contents(self.response_body),
            error: optional_text(self.error),
            code: optional_text(self.code),
            dataforseo_status: self.dataforseo_status,
            dataforseo_body: optional_text(self.dataforseo_body),
            retried: self.retried,
        }
    }
}

/// An outcome says its own fields.
pub proof fn outcome_says(outcome: ProviderOutcome)
    ensures
        outcome@.status == outcome.status@,
        outcome@.duration_ms == outcome.duration_ms,
        outcome@.dfs_cost_cents == outcome.dfs_cost_cents,
        outcome@.dataforseo_status == outcome.dataforseo_status,
        outcome@.retried == outcome.retried,
        outcome@.model == optional_text(outcome.model),
        outcome@.error == optional_text(outcome.error),
        outcome@.code == optional_text(outcome.code),
        outcome@.dataforseo_body == optional_text(outcome.dataforseo_body),
        outcome.response_body matches Some(body) ==> outcome@.response_body == Some(contents(body)),
        outcome.response_body is None ==> outcome@.response_body is None,
{
}

/// A text as a JSON string, where there is one.
pub open spec fn optional_string(text: Option<Seq<char>>) -> Option<Json> {
    match text {
        Some(text) => Some(Json::Str(text)),
        None => None,
    }
}

/// The task that asks upstream what a request asks: the location by code or by name,
/// a forced web search only where the provider can be forced and it is asked for, and
/// the request's id for a tag where it has none.
pub open spec fn task_json(request: LlmRequestView, request_id: Seq<char>) -> Json {
    let start = map![
        "keyword"@ => Json::Str(request.keyword),
        "language_code"@ => Json::Str(request.language),
    ];
    let located = match request.location {
        LocationView::Code(code) => start.insert("location_code"@, Json::Int(code as int)),
        LocationView::Name(name) => start.insert("location_name"@, Json::Str(name)),
    };
    let forced = if request.provider.can_force_web_search() && request.force_web_search {
        located.insert("force_web_search"@, Json::Bool(true))
    } else {
        located
    };
    let tag = match request.tag {
        Some(tag) => tag,
        None => request_id,
    };
    Json::Object(forced.insert("tag"@, Json::Str(tag)))
}

/// The fields of a task have different names.
proof fn task_fields_differ()
    ensures
        "tag"@.len() == 3,
        "keyword"@.len() == 7,
        "language_code"@.len() == 13,
        "location_code"@.len() == 13,
        "location_name"@.len() == 13,
        "force_web_search"@.len() == 16,
        "language_code"@ != "location_code"@,
        "language_code"@ != "location_name"@,
        "location_code"@ != "location_name"@,
{
    reveal_strlit("tag");
    reveal_strlit("keyword");
    reveal_strlit("language_code");
    reveal_strlit("location_code");
    reveal_strlit("location_name");
    reveal_strlit("force_web_search");
    assert("language_code"@[1] == 'a');
    assert("location_code"@[1] == 'o' && "location_code"@[9] == 'c');
    assert("location_name"@[1] == 'o' && "location_name"@[9] == 'n');
}

/// A task holds the keyword, the language, the location either by code or by name, the
/// request's tag or else its id, and that a web search is forced exactly where it is
/// asked for and the provider can be forced; and nothing else.
pub proof fn task_fields(request: LlmRequestView, request_id: Seq<char>)
    ensures
        ({
            let task = task_json(request, request_id);
            &&& field(task, "keyword"@) == Some(Json::Str(request.keyword))
            &&& field(task, "language_code"@) == Some(Json::Str(request.language))
            &&& match request.location {
                LocationView::Code(code) => {
                    &&& field(task, "location_code"@) == Some(Json::Int(code as int))
                    &&& field(task, "location_name"@) is None
                },
                LocationView::Name(name) => {
                    &&& field(task, "location_name"@) == Some(Json::Str(name))
                    &&& field(task, "location_code"@) is None
                },
            }
            &&& field(task, "force_web_search"@) == if request.provider.can_force_web_search()
                && request.force_web_search {
                Some(Json::Bool(true))
            } else {
                None
            }
            &&& field(task, "tag"@) == match request.tag {
                Some(tag) => Some(Json::Str(tag)),
                None => Some(Json::Str(request_id)),
            }
            &&& forall|name: Seq<char>| #[trigger]
                field(task, name) is Some ==> name == "keyword"@ || name == "language_code"@ || name
                    == "location_code"@ || name == "location_name"@ || name == "force_web_search"@
                    || name == "tag"@
        }),
{
    task_fields_differ();
}

/// Makes the task that asks upstream what a request asks.
pub fn build_dfs_task(request: &LlmRequest, request_id: &str) -> (task: Value)
    ensures
        contents(task) == task_json(request@, request_id@),
{
    let mut task = empty_object();
    set_member(&mut task, "keyword", string(request.keyword.as_str()));
    set_member(&mut task, "language_code", string(request.language.as_str()));
    match &request.location {
        Location::Code(code) => {
            set_member(&mut task, "location_code", signed(*code));
        },
        Location::Name(name) => {
            set_member(&mut task, "location_name", string(name.as_str()));
        },
    }
    if request.provider.supports_force_web_search() && request.force_web_search {
        set_member(&mut task, "force_web_search", boolean(true));
    }
    let tag = match &request.tag {
        Some(tag) => string(tag.as_str()),
        None => string(request_id),
    };
    set_member(&mut task, "tag", tag);
    task
}

/// The value of the header that authenticates a login: HTTP basic authentication.
pub open spec fn auth_header(login: Seq<char>, password: Seq<char>) -> Seq<char> {
    "Basic "@ + base64_text(encode_utf8(login + ":"@ + password))
}

/// The login and the password that a header authenticates, with a colon between them:
/// what the bytes spell that stand in base64 behind `Basic `.
pub open spec fn credentials_in(header: Seq<char>) -> Option<Seq<char>> {
    match base64_bytes(header.skip("Basic "@.len() as int)) {
        Some(bytes) => Some(decode_utf8(bytes)),
        None => None,
    }
}

/// Decoding the header that authenticates a login gives the login and the password back.
pub proof fn credentials_come_back(login: Seq<char>, password: Seq<char>)
    ensures
        auth_header(login, password).take("Basic "@.len() as int) == "Basic "@,
        credentials_in(auth_header(login, password)) == Some(login + ":"@ + password),
{
    let credentials = login + ":"@ + password;
    let header = auth_header(login, password);
    assert(header.take("Basic "@.len() as int) =~= "Basic "@);
    assert(header.skip("Basic "@.len() as int) =~= base64_text(encode_utf8(credentials)));
    base64_is_decoded(encode_utf8(credentials));
    encode_utf8_decode_utf8(credentials);
}

/// Makes the value of the header that authenticates a login.
pub fn build_auth_header(login: &str, password: &str) -> (header: String)
    ensures
        header@ == auth_header(login@, password@),
        credentials_in(header@) == Some(login@ + ":"@ + password@),
{
    let credentials = login.to_string().concat(":").concat(password);
    let encoded = encode_base64(credentials.as_str().as_bytes());
    proof {
        credentials_come_back(login@, password@);
    }
    "Basic ".to_string().concat(encoded.as_str())
}

/// Writes an array that holds one task. Reading it gives an array of one task back: the
/// task, but for the last digits of floats that it may hold. Nothing is said of a task
/// that nests deeper than a text may, or holds a float that may not be read.
pub fn wrap_task_array(task: Value) -> (text: String)
    ensures
        text@ == rendered(Json::Array(seq![contents(task)])),
        readable(contents(task), (depth_limit() - 1) as nat) ==> (parsed(text@) matches Some(
            Json::Array(read),
        ) && read.len() == 1 && alike(contents(task), read[0], (depth_limit() - 1) as nat)),
        shallow(contents(task), (depth_limit() - 1) as nat) ==> parsed(text@) == Some(
            Json::Array(seq![contents(task)]),
        ),
{
    let ghost json = contents(task);
    let mut tasks: Vec<Value> = Vec::new();
    tasks.push(task);
    let value = array(tasks);
    assert(contents(value)->Array_0 =~= seq![json]);
    assert(contents(value)->Array_0[0] == json);
    render(&value)
}

/// What an outcome says, as JSON.
pub open spec fn outcome_json(outcome: OutcomeView) -> Json {
    let start = map![
        "status"@ => Json::Str(outcome.status),
        "duration_ms"@ => Json::Int(outcome.duration_ms as int),
        "retried"@ => Json::Bool(outcome.retried),
    ];
    let model = with_optional(start, "model"@, optional_string(outcome.model));
    let cost = with_optional(
        model,
        "dfs_cost_cents"@,
        match outcome.dfs_cost_cents {
            Some(cents) => Some(Json::Int(cents as int)),
            None => None,
        },
    );
    let response = with_optional(cost, "response"@, outcome.response_body);
    let error = with_optional(response, "error"@, optional_string(outcome.error));
    let code = with_optional(error, "code"@, optional_string(outcome.code));
    let status = with_optional(
        code,
        "dataforseo_status"@,
        match outcome.dataforseo_status {
            Some(status) => Some(Json::Int(status as int)),
            None => None,
        },
    );
    Json::Object(
        with_optional(status, "dataforseo_body"@, optional_string(outcome.dataforseo_body)),
    )
}

/// Writes an outcome out as JSON.
fn provider_json(outcome: ProviderOutcome) -> (value: Value)
    ensures
        contents(value) == outcome_json(outcome@),
{
    let mut value = empty_object();
    set_member(&mut value, "status", string(outcome.status));
    set_member(&mut value, "duration_ms", unsigned(outcome.duration_ms));
    set_member(&mut value, "retried", boolean(outcome.retried));
    if let Some(model) = &outcome.model {
        set_member(&mut value, "model", string(model.as_str()));
    }
    if let Some(cents) = outcome.dfs_cost_cents {
        set_member(&mut value, "dfs_cost_cents", unsigned(cents));
    }
    if let Some(body) = outcome.response_body {
        set_member(&mut value, "response", body);
    }
    if let Some(error) = &outcome.error {
        set_member(&mut value, "error", string(error.as_str()));
    }
    if let Some(code) = &outcome.code {
        set_member(&mut value, "code", string(code.as_str()));
    }
    if let Some(status) = outcome.dataforseo_status {
        set_member(&mut value, "dataforseo_status", unsigned(status as u64));
    }
    if let Some(body) = &outcome.dataforseo_body {
        set_member(&mut value, "dataforseo_body", string(body.as_str()));
    }
    value
}

/// Whether a provider succeeded.
pub open spec fn succeeded(outcome: OutcomeView) -> bool {
    outcome.status == "ok"@
}

/// The status of a request to both providers: success, partial success, or failure.
pub open spec fn envelope_status(gemini: OutcomeView, chatgpt: OutcomeView) -> u16 {
    if succeeded(gemini) && succeeded(chatgpt) {
        200
    } else if succeeded(gemini) || succeeded(chatgpt) {
        207
    } else {
        502
    }
}

/// What both providers made of a request, as JSON.
pub open spec fn envelope_json(
    gemini: OutcomeView,
    chatgpt: OutcomeView,
    request_id: Seq<char>,
    total_ms: u64,
) -> Json {
    Json::Object(
        map![
            "request_id"@ => Json::Str(request_id),
            "provider"@ => Json::Str("both"@),
            "duration_ms"@ => Json::Int(total_ms as int),
            "gemini"@ => outcome_json(gemini),
            "chatgpt"@ => outcome_json(chatgpt),
        ],
    )
}

/// A request to both providers succeeds where both do, fails where both fail, and
/// succeeds in part where one does.
pub proof fn status_of_both(gemini: OutcomeView, chatgpt: OutcomeView)
    ensures
        envelope_status(gemini, chatgpt) == 200 <==> succeeded(gemini) && succeeded(chatgpt),
        envelope_status(gemini, chatgpt) == 207 <==> succeeded(gemini) != succeeded(chatgpt),
        envelope_status(gemini, chatgpt) == 502 <==> !succeeded(gemini) && !succeeded(chatgpt),
{
}

/// A provider succeeded exactly where its outcome says `ok`.
pub proof fn ok_is_success(outcome: OutcomeView)
    ensures
        succeeded(outcome) <==> outcome.status == "ok"@,
{
}

/// The members of an envelope have different names.
proof fn envelope_members_differ()
    ensures
        "gemini"@.len() == 6,
        "chatgpt"@.len() == 7,
        "provider"@.len() == 8,
        "request_id"@.len() == 10,
        "duration_ms"@.len() == 11,
{
    reveal_strlit("gemini");
    reveal_strlit("chatgpt");
    reveal_strlit("provider");
    reveal_strlit("request_id");
    reveal_strlit("duration_ms");
}

/// What one provider made of a request stands in the envelope whatever the other made
/// of it.
pub proof fn providers_are_isolated(
    gemini: OutcomeView,
    chatgpt: OutcomeView,
    request_id: Seq<char>,
    total_ms: u64,
)
    ensures
        ({
            let envelope = envelope_json(gemini, chatgpt, request_id, total_ms);
            &&& member(envelope, "gemini"@) == outcome_json(gemini)
            &&& member(envelope, "chatgpt"@) == outcome_json(chatgpt)
            &&& member(envelope, "request_id"@) == Json::Str(request_id)
            &&& member(envelope, "provider"@) == Json::Str("both"@)
            &&& member(envelope, "duration_ms"@) == Json::Int(total_ms as int)
            &&& forall|name: Seq<char>| #[trigger]
                field(envelope, name) is Some ==> name == "gemini"@ || name == "chatgpt"@ || name
                    == "request_id"@ || name == "provider"@ || name == "duration_ms"@
        }),
{
    envelope_members_differ();
}

/// The members of an outcome have different names.
proof fn outcome_members_differ()
    ensures
        "code"@.len() == 4,
        "error"@.len() == 5,
        "model"@.len() == 5,
        "status"@.len() == 6,
        "retried"@.len() == 7,
        "response"@.len() == 8,
        "duration_ms"@.len() == 11,
        "dfs_cost_cents"@.len() == 14,
        "dataforseo_body"@.len() == 15,
        "dataforseo_status"@.len() == 17,
        "error"@ != "model"@,
{
    reveal_strlit("code");
    reveal_strlit("error");
    reveal_strlit("model");
    reveal_strlit("status");
    reveal_strlit("retried");
    reveal_strlit("response");
    reveal_strlit("duration_ms");
    reveal_strlit("dfs_cost_cents");
    reveal_strlit("dataforseo_body");
    reveal_strlit("dataforseo_status");
    assert("error"@[0] == 'e');
    assert("model"@[0] == 'm');
}

/// Every provider's part of an envelope says how it went, how long it took and whether
/// it took a second attempt, and each other thing exactly where it is known.
pub proof fn outcome_members(outcome: OutcomeView)
    ensures
        ({
            let json = outcome_json(outcome);
            &&& field(json, "status"@) == Some(Json::Str(outcome.status))
            &&& field(json, "duration_ms"@) == Some(Json::Int(outcome.duration_ms as int))
            &&& field(json, "retried"@) == Some(Json::Bool(outcome.retried))
            &&& field(json, "model"@) == optional_string(outcome.model)
            &&& field(json, "dfs_cost_cents"@) == match outcome.dfs_cost_cents {
                Some(cents) => Some(Json::Int(cents as int)),
                None => None,
            }
            &&& field(json, "response"@) == outcome.response_body
            &&& field(json, "error"@) == optional_string(outcome.error)
            &&& field(json, "code"@) == optional_string(outcome.code)
            &&& field(json, "dataforseo_status"@) == match outcome.dataforseo_status {
                Some(status) => Some(Json::Int(status as int)),
                None => None,
            }
            &&& field(json, "dataforseo_body"@) == optional_string(outcome.dataforseo_body)
            &&& forall|name: Seq<char>| #[trigger]
                field(json, name) is Some ==> name == "status"@ || name == "duration_ms"@ || name
                    == "retried"@ || name == "model"@ || name == "dfs_cost_cents"@ || name
                    == "response"@ || name == "error"@ || name == "code"@ || name
                    == "dataforseo_status"@ || name == "dataforseo_body"@
        }),
{
    outcome_members_differ();
}

/// Whether the answer that an outcome holds can be read again once it stands in an
/// envelope.
pub open spec fn fits_envelope(outcome: OutcomeView) -> bool {
    outcome.response_body matches Some(answer) ==> readable(answer, (depth_limit() - 2) as nat)
}

/// What an outcome says can be read again where its answer can.
proof fn outcome_is_readable(outcome: OutcomeView)
    requires
        fits_envelope(outcome),
    ensures
        readable(outcome_json(outcome), (depth_limit() - 1) as nat),
{
    let depth = (depth_limit() - 2) as nat;
    let members = outcome_json(outcome)->Object_0;
    assert forall|key: Seq<char>| members.contains_key(key) implies readable(
        #[trigger] members[key],
        depth,
    ) by {
        if !(outcome.response_body is Some && members[key] == outcome.response_body->Some_0) {
            assert(members[key] is Str || members[key] is Int || members[key] is Bool);
        }
    }
}

/// An envelope can be read again where the answers in it can.
pub proof fn envelope_is_readable(
    gemini: OutcomeView,
    chatgpt: OutcomeView,
    request_id: Seq<char>,
    total_ms: u64,
)
    requires
        fits_envelope(gemini),
        fits_envelope(chatgpt),
    ensures
        readable(envelope_json(gemini, chatgpt, request_id, total_ms), depth_limit()),
{
    outcome_is_readable(gemini);
    outcome_is_readable(chatgpt);
    let members = envelope_json(gemini, chatgpt, request_id, total_ms)->Object_0;
    assert forall|key: Seq<char>| members.contains_key(key) implies readable(
        #[trigger] members[key],
        (depth_limit() - 1) as nat,
    ) by {
        if members[key] != outcome_json(gemini) && members[key] != outcome_json(chatgpt) {
            assert(members[key] is Str || members[key] is Int);
        }
    }
}

/// Puts together what both providers made of a request, and the status for it.
pub fn build_envelope(
    gemini: ProviderOutcome,
    chatgpt: ProviderOutcome,
    request_id: &str,
    total_ms: u64,
) -> (result: (u16, Value))
    ensures
        result.0 == envelope_status(gemini@, chatgpt@),
        contents(result.1) == envelope_json(gemini@, chatgpt@, request_id@, total_ms),
{
    let gemini_ok = same(gemini.status, "ok");
    let chatgpt_ok = same(chatgpt.status, "ok");
    let status_code: u16 = match (gemini_ok, chatgpt_ok) {
        (true, true) => 200,
        (false, false) => 502,
        _ => 207,
    };
    let mut envelope = empty_object();
    set_member(&mut envelope, "request_id", string(request_id));
    set_member(&mut envelope, "provider", string("both"));
    set_member(&mut envelope, "duration_ms", unsigned(total_ms));
    set_member(&mut envelope, "gemini", provider_json(gemini));
    set_member(&mut envelope, "chatgpt", provider_json(chatgpt));
    (status_code, envelope)
}

} // verus!
